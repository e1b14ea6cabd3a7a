use coevo_server::meeting::MeetingTurnDraft;
use coevo_server::reply::{
    meeting_resolution_from_reply, meeting_turn_from_reply, parse_meeting_draft,
    parse_transcript_turns, settle_responsibility_anchor, JsonField, JsonObject, MeetingReply,
    TranscriptValue,
};

fn obj(pairs: &[(&str, &str)]) -> JsonObject {
    JsonObject {
        entries: pairs
            .iter()
            .map(|(k, v)| (k.to_string(), JsonField::Text(v.to_string())))
            .collect(),
    }
}

fn items(objects: Vec<JsonObject>) -> Option<TranscriptValue> {
    Some(TranscriptValue::Items(objects))
}

fn participants() -> Vec<String> {
    vec![
        "agent-founder-01".to_string(),
        "agent-pm-01".to_string(),
        "agent-critic-01".to_string(),
    ]
}

fn speaker_message_transcript() -> Option<TranscriptValue> {
    items(vec![
        obj(&[
            ("speaker", "agent-founder-01"),
            ("message", "B2B gives us more predictable revenue."),
        ]),
        obj(&[
            ("speaker", "agent-pm-01"),
            ("message", "We can adapt the current roadmap to team workflows."),
        ]),
        obj(&[
            ("speaker", "agent-critic-01"),
            (
                "message",
                "I oppose until we address long sales cycles and enterprise trust risk.",
            ),
        ]),
    ])
}

#[test]
fn parse_meeting_draft_requires_explicit_responsibility_anchor() {
    let reply = MeetingReply {
        transcript: speaker_message_transcript(),
        fields: obj(&[(
            "resolution_md",
            "Run a staged B2B transition with explicit risk review.",
        )]),
    };
    let parsed = parse_meeting_draft(&reply, &participants());
    assert!(parsed.is_none());
}

#[test]
fn parse_meeting_draft_accepts_string_transcript_from_real_provider() {
    let reply = MeetingReply {
        transcript: Some(TranscriptValue::Text(
            "agent-founder-01: We should test the enterprise motion carefully.\nagent-pm-01: The product fit is stronger in multi-seat workflows.\nagent-critic-01: We still need a narrower rollout because migration risk is unresolved."
                .to_string(),
        )),
        fields: obj(&[
            (
                "resolution_md",
                "Adopt a staged B2B trial with explicit migration checkpoints.",
            ),
            ("responsibility_anchor", "founder"),
        ]),
    };
    let parsed = parse_meeting_draft(&reply, &participants()).expect("meeting draft should parse");
    assert_eq!(parsed.transcript.len(), 3);
    assert_eq!(parsed.transcript[2].agent_id, "agent-critic-01");
    assert_eq!(parsed.transcript[2].stance, "oppose");
    assert!(parsed.transcript[2].text.contains("migration risk"));
    assert!(parsed.resolution_md.contains("staged B2B trial"));
}

#[test]
fn parse_meeting_draft_accepts_agent_statement_shape_from_real_provider() {
    let reply = MeetingReply {
        transcript: items(vec![
            obj(&[
                ("agent", "agent-founder-01"),
                ("statement", "B2B gives us clearer pricing power."),
            ]),
            obj(&[
                ("agent", "agent-pm-01"),
                ("statement", "The current roadmap already supports team workflows."),
            ]),
            obj(&[
                ("agent", "agent-critic-01"),
                (
                    "statement",
                    "I oppose the shift until churn and migration risk are modeled.",
                ),
            ]),
        ]),
        fields: obj(&[
            (
                "resolution_md",
                "Run a staged B2B transition with a churn checkpoint.",
            ),
            ("responsibility_anchor", "agent-founder-01"),
        ]),
    };
    let parsed = parse_meeting_draft(&reply, &participants()).expect("meeting draft should parse");
    assert_eq!(parsed.transcript.len(), 3);
    assert_eq!(parsed.transcript[0].text, "B2B gives us clearer pricing power.");
    assert_eq!(parsed.transcript[2].stance, "oppose");
    assert!(parsed.transcript[2].text.contains("migration risk"));
}

#[test]
fn parse_meeting_draft_accepts_role_participant_and_name_variants() {
    let reply = MeetingReply {
        transcript: items(vec![
            obj(&[
                ("role", "agent-founder-01"),
                ("content", "B2B gives us stronger contract value."),
            ]),
            obj(&[
                ("participant", "agent-pm-01"),
                ("statement", "The roadmap already supports multi-seat workflows."),
            ]),
            obj(&[
                ("name", "agent-critic-01"),
                ("content", "I oppose until churn and sales-cycle risk are modeled."),
            ]),
        ]),
        fields: obj(&[
            ("resolution_md", "Run a staged B2B trial with explicit risk review."),
            ("responsibility_anchor", "agent-founder-01"),
        ]),
    };
    let parsed = parse_meeting_draft(&reply, &participants()).expect("meeting draft should parse");
    assert_eq!(parsed.transcript.len(), 3);
    assert_eq!(parsed.transcript[0].text, "B2B gives us stronger contract value.");
    assert_eq!(parsed.transcript[1].agent_id, "agent-pm-01");
    assert_eq!(parsed.transcript[2].stance, "oppose");
    assert!(parsed.transcript[2].text.contains("sales-cycle risk"));
}

#[test]
fn parse_meeting_draft_accepts_speaker_message_shape_from_real_provider() {
    let reply = MeetingReply {
        transcript: speaker_message_transcript(),
        fields: obj(&[
            (
                "resolution_md",
                "Run a staged B2B transition with explicit risk review.",
            ),
            ("responsibility_anchor", "agent-founder-01"),
        ]),
    };
    let parsed = parse_meeting_draft(&reply, &participants()).expect("meeting draft should parse");
    assert_eq!(parsed.transcript.len(), 3);
    assert_eq!(parsed.transcript[0].agent_id, "agent-founder-01");
    assert_eq!(parsed.transcript[2].stance, "oppose");
    assert!(parsed.transcript[2].text.contains("enterprise trust risk"));
}

#[test]
fn parse_meeting_draft_normalizes_role_labels_from_real_provider() {
    let reply = MeetingReply {
        transcript: items(vec![
            obj(&[
                ("participant", "Founder"),
                ("statement", "B2B gives us higher lifetime value."),
            ]),
            obj(&[
                ("participant", "Product Manager"),
                ("statement", "The roadmap already supports multi-seat workflows."),
            ]),
            obj(&[
                ("participant", "Risk Analyst"),
                ("statement", "I oppose until sales-cycle and migration risk are modeled."),
            ]),
        ]),
        fields: obj(&[
            ("resolution_md", "Run a staged B2B trial with explicit risk review."),
            ("responsibility_anchor", "agent-pm-01"),
        ]),
    };
    let parsed = parse_meeting_draft(&reply, &participants()).expect("meeting draft should parse");
    assert_eq!(parsed.transcript.len(), 3);
    assert_eq!(parsed.transcript[0].agent_id, "agent-founder-01");
    assert_eq!(parsed.transcript[1].agent_id, "agent-pm-01");
    assert_eq!(parsed.transcript[2].agent_id, "agent-critic-01");
    assert_eq!(parsed.transcript[2].stance, "oppose");
}

#[test]
fn parse_meeting_draft_accepts_resolution_aliases_from_real_provider() {
    let reply = MeetingReply {
        transcript: speaker_message_transcript(),
        fields: obj(&[
            ("resolution", "Run a staged B2B transition with explicit risk review."),
            ("decision_md", "Run a staged B2B transition with explicit risk review."),
            ("owner", "agent-founder-01"),
        ]),
    };
    let parsed = parse_meeting_draft(&reply, &participants())
        .expect("meeting draft should parse alias fields");
    assert!(parsed.resolution_md.contains("staged B2B transition"));
    assert_eq!(parsed.responsibility_anchor, "agent-founder-01");
}

#[test]
fn parse_meeting_draft_rejects_missing_responsibility_anchor() {
    let reply = MeetingReply {
        transcript: speaker_message_transcript(),
        fields: obj(&[(
            "summary_md",
            "Run a staged B2B transition with explicit risk review.",
        )]),
    };
    let parsed = parse_meeting_draft(&reply, &participants());
    assert!(parsed.is_none());
}

#[test]
fn draft_without_a_dissenting_scrutiny_role_is_refused() {
    let reply = MeetingReply {
        transcript: items(vec![
            obj(&[("speaker", "agent-founder-01"), ("message", "Yes.")]),
            obj(&[("speaker", "agent-pm-01"), ("message", "Yes.")]),
            obj(&[
                ("speaker", "agent-critic-01"),
                ("message", "Fine by me."),
                ("stance", "support"),
            ]),
        ]),
        fields: obj(&[("resolution_md", "Go."), ("responsibility_anchor", "agent-pm-01")]),
    };
    assert!(parse_meeting_draft(&reply, &participants()).is_none());
}

#[test]
fn draft_missing_a_participant_turn_is_refused() {
    let reply = MeetingReply {
        transcript: items(vec![
            obj(&[("speaker", "agent-founder-01"), ("message", "Yes.")]),
            obj(&[("speaker", "agent-critic-01"), ("message", "No, risk.")]),
        ]),
        fields: obj(&[("resolution_md", "Go."), ("responsibility_anchor", "agent-pm-01")]),
    };
    assert!(parse_meeting_draft(&reply, &participants()).is_none());
}

#[test]
fn draft_with_non_text_transcript_is_refused() {
    let reply = MeetingReply {
        transcript: Some(TranscriptValue::NonText),
        fields: obj(&[("resolution_md", "Go."), ("responsibility_anchor", "agent-pm-01")]),
    };
    assert!(parse_meeting_draft(&reply, &participants()).is_none());
    let no_transcript = MeetingReply {
        transcript: None,
        fields: obj(&[("resolution_md", "Go."), ("responsibility_anchor", "agent-pm-01")]),
    };
    assert!(parse_meeting_draft(&no_transcript, &participants()).is_none());
}

#[test]
fn text_transcript_skips_blank_lines_and_trims() {
    let t = TranscriptValue::Text(
        "\n  agent-founder-01 :  Go for it.  \n\n agent-critic-01: Too risky.\n".to_string(),
    );
    let turns = parse_transcript_turns(&t, &participants()).expect("lines should parse");
    assert_eq!(turns.len(), 2);
    assert_eq!(turns[0].agent_id, "agent-founder-01");
    assert_eq!(turns[0].text, "Go for it.");
    assert_eq!(turns[0].stance, "support");
    assert_eq!(turns[1].stance, "oppose");
}

#[test]
fn non_string_field_counts_as_missing() {
    let mut fields = obj(&[("responsibility_anchor", "agent-founder-01")]);
    fields.entries.insert(0, ("resolution_md".to_string(), JsonField::NonText));
    let reply = MeetingReply { transcript: speaker_message_transcript(), fields };
    assert!(parse_meeting_draft(&reply, &participants()).is_none());
}

#[test]
fn turn_reply_names_participant_and_defaults_stance() {
    let reply = obj(&[("agent_id", " Risk Analyst "), ("statement", "  Too early.  ")]);
    let turn = meeting_turn_from_reply(Some(reply), &participants(), "agent-pm-01").unwrap();
    assert_eq!(turn.agent_id, "agent-critic-01");
    assert_eq!(turn.stance, "oppose");
    assert_eq!(turn.text, "Too early.");

    let unknown = obj(&[("agent_id", "someone else"), ("text", "Ship it"), ("stance", " neutral ")]);
    let turn = meeting_turn_from_reply(Some(unknown), &participants(), "agent-pm-01").unwrap();
    assert_eq!(turn.agent_id, "agent-pm-01");
    assert_eq!(turn.stance, "neutral");
    assert_eq!(turn.text, "Ship it");
}

#[test]
fn turn_reply_errors_name_the_missing_part() {
    assert_eq!(
        meeting_turn_from_reply(None, &participants(), "agent-pm-01").err().unwrap(),
        "meeting turn generation failed: provider returned no JSON"
    );
    let blank = obj(&[("agent_id", "agent-pm-01"), ("text", "   ")]);
    assert_eq!(
        meeting_turn_from_reply(Some(blank), &participants(), "agent-pm-01").err().unwrap(),
        "meeting turn generation failed: provider JSON missing text"
    );
}

#[test]
fn resolution_reply_needs_both_fields() {
    let ok = obj(&[("resolution_md", " Letter "), ("responsibility_anchor", " pm ")]);
    assert_eq!(
        meeting_resolution_from_reply(Some(ok)).unwrap(),
        ("Letter".to_string(), "pm".to_string())
    );
    assert_eq!(
        meeting_resolution_from_reply(None).err().unwrap(),
        "meeting resolution generation failed: provider returned no JSON"
    );
    let no_letter = obj(&[("responsibility_anchor", "pm")]);
    assert_eq!(
        meeting_resolution_from_reply(Some(no_letter)).err().unwrap(),
        "meeting resolution generation failed: provider JSON missing resolution_md"
    );
    let no_anchor = obj(&[("resolution_md", "Letter")]);
    assert_eq!(
        meeting_resolution_from_reply(Some(no_anchor)).err().unwrap(),
        "meeting resolution generation failed: provider JSON missing responsibility_anchor"
    );
}

fn turn(agent: &str, stance: &str) -> MeetingTurnDraft {
    MeetingTurnDraft {
        agent_id: agent.to_string(),
        stance: stance.to_string(),
        text: "...".to_string(),
    }
}

#[test]
fn anchor_settles_on_named_then_inferred_participant() {
    let transcript = vec![turn("agent-critic-01", "oppose"), turn("agent-pm-01", "Support")];
    assert_eq!(
        settle_responsibility_anchor(" Founder ", &transcript, &participants()).unwrap(),
        "agent-founder-01"
    );
    assert_eq!(
        settle_responsibility_anchor("the board", &transcript, &participants()).unwrap(),
        "agent-pm-01"
    );
    let outsiders = vec![turn("guest", "oppose")];
    assert_eq!(
        settle_responsibility_anchor("the board", &outsiders, &participants()).err().unwrap(),
        "meeting resolution generation failed: responsibility_anchor the board is not a meeting participant"
    );
}

#[test]
fn text_transcript_lines_split_at_first_colon_and_keep_participants_only() {
    let t = TranscriptValue::Text(
        "Designer: not in the meeting\nagent-pm-01:   \nPM: ship: now\nRisk Analyst: too early".to_string(),
    );
    let turns = parse_transcript_turns(&t, &participants()).expect("participant lines remain");
    assert_eq!(turns.len(), 2);
    assert_eq!(turns[0].agent_id, "agent-pm-01");
    assert_eq!(turns[0].text, "ship: now");
    assert_eq!(turns[0].stance, "support");
    assert_eq!(turns[1].agent_id, "agent-critic-01");
    assert_eq!(turns[1].stance, "oppose");
    let rejected = TranscriptValue::Text("agent-pm-01: fine\nno colon here".to_string());
    assert!(parse_transcript_turns(&rejected, &participants()).is_none());
    let none_left = TranscriptValue::Text("Designer: hello".to_string());
    assert!(parse_transcript_turns(&none_left, &participants()).is_none());
}
