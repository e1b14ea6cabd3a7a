use coevo_server::briefing::{
    meeting_provider_refusal, meeting_resolution_user_prompt, meeting_turn_user_prompt,
    nonempty_markdown, participant_persona, persona_file_names, persona_section_text,
    preferred_structured_model, prior_transcript, transcript_text,
};
use coevo_server::meeting::MeetingTurnDraft;
use coevo_server::text::{decimal_text, join_with};

fn files(contents: &[(&str, Option<&str>)]) -> Vec<(String, Option<String>)> {
    contents
        .iter()
        .map(|(label, content)| (label.to_string(), content.map(|c| c.to_string())))
        .collect()
}

#[test]
fn meeting_prompt_includes_employee_persona_markdown_sections() {
    let names = persona_file_names();
    assert_eq!(names, vec!["identity.md", "soul.md", "agents.md", "owner.md", "tools.md"]);
    let bodies = ["Identity body", "Soul body", "Agents body", "Owner body", "Tools body"];
    let sections: Vec<(String, Option<String>)> = names
        .iter()
        .zip(bodies.iter())
        .map(|(n, b)| (n.to_string(), nonempty_markdown(Some(b))))
        .collect();
    let persona = participant_persona(
        "agent-founder-01",
        nonempty_markdown(Some("Prompt body\n")),
        &sections,
    );
    assert!(persona.contains("Participant: agent-founder-01"));
    assert!(persona.contains("Prompt body"));
    assert!(persona.contains("[identity.md]\nIdentity body"));
    assert!(persona.contains("[soul.md]\nSoul body"));
    assert!(persona.contains("[agents.md]\nAgents body"));
    assert!(persona.contains("[owner.md]\nOwner body"));
    assert!(persona.contains("[tools.md]\nTools body"));
}

#[test]
fn persona_joins_present_sections_with_blank_lines() {
    let persona = participant_persona(
        "agent-critic-01",
        None,
        &files(&[("identity.md", Some("Critic identity")), ("soul.md", None)]),
    );
    assert_eq!(persona, "Participant: agent-critic-01\n\n[identity.md]\nCritic identity");
    assert_eq!(participant_persona("a", None, &Vec::new()), "Participant: a");
    assert_eq!(
        participant_persona("a", Some("Body".to_string()), &Vec::new()),
        "Participant: a\n\nBody"
    );
}

#[test]
fn blank_markdown_is_not_shown() {
    assert_eq!(nonempty_markdown(None), None);
    assert_eq!(nonempty_markdown(Some(" \n\t ")), None);
    assert_eq!(nonempty_markdown(Some("\n# Title\n\n")), Some("# Title".to_string()));
}

#[test]
fn long_persona_sections_are_truncated_with_their_length() {
    let long = "x".repeat(4001);
    let section = persona_section_text("soul.md", &long);
    let expected = format!("[soul.md]\n{}\n[TRUNCATED: 4001 chars total]", "x".repeat(4000));
    assert_eq!(section, expected);
    let exact = "é".repeat(4000);
    assert_eq!(persona_section_text("soul.md", &exact), format!("[soul.md]\n{}", exact));
    let wide = "é".repeat(4002);
    assert!(persona_section_text("owner.md", &wide).ends_with("\n[TRUNCATED: 4002 chars total]"));
}

fn turn(agent: &str, stance: &str, text: &str) -> MeetingTurnDraft {
    MeetingTurnDraft { agent_id: agent.to_string(), stance: stance.to_string(), text: text.to_string() }
}

#[test]
fn meeting_turn_prompt_includes_prior_transcript_context() {
    let prior_turns = vec![turn(
        "agent-founder-01",
        "support",
        "We should test an enterprise rollout in stages.",
    )];
    let persona = participant_persona("agent-critic-01", Some("Critic prompt".to_string()), &Vec::new());
    let prompt = meeting_turn_user_prompt(
        "Should we shift from B2C to B2B?",
        "vote",
        &vec!["agent-founder-01".to_string(), "agent-critic-01".to_string()],
        "agent-critic-01",
        &persona,
        &prior_turns,
    );
    assert!(prompt.contains("Current participant: agent-critic-01"));
    assert!(prompt.contains("Assigned stance: oppose"));
    assert!(prompt.contains("Critic prompt"));
    assert!(prompt.contains(
        "Prior transcript:\nagent-founder-01 [support]: We should test an enterprise rollout in stages."
    ));
    assert_eq!(
        prompt,
        "Topic: Should we shift from B2C to B2B?\nClose mode: vote\nParticipants: agent-founder-01, agent-critic-01\nCurrent participant: agent-critic-01\nAssigned stance: oppose\nParticipant persona:\nParticipant: agent-critic-01\n\nCritic prompt\nPrior transcript:\nagent-founder-01 [support]: We should test an enterprise rollout in stages.\nReturn JSON with agent_id, stance, text for the current participant only."
    );
}

#[test]
fn first_speaker_sees_no_prior_transcript() {
    assert_eq!(prior_transcript(&Vec::new()), "(none yet)");
    let prompt = meeting_turn_user_prompt("T", "chair", &vec!["a".to_string()], "a", "P", &Vec::new());
    assert!(prompt.contains("Prior transcript:\n(none yet)\n"));
    assert!(prompt.contains("Assigned stance: support"));
}

#[test]
fn transcript_lists_one_line_per_turn() {
    let turns = vec![turn("a", "support", "yes"), turn("b", "oppose", "no")];
    assert_eq!(transcript_text(&turns), "a [support]: yes\nb [oppose]: no");
    assert_eq!(transcript_text(&Vec::new()), "");
    assert_eq!(prior_transcript(&turns), "a [support]: yes\nb [oppose]: no");
}

#[test]
fn resolution_prompt_carries_the_whole_transcript() {
    let turns = vec![turn("a", "support", "yes"), turn("b", "oppose", "no")];
    assert_eq!(
        meeting_resolution_user_prompt("Topic X", "vote", &turns),
        "Topic: Topic X\nClose mode: vote\nTranscript:\na [support]: yes\nb [oppose]: no\nReturn JSON with resolution_md and responsibility_anchor."
    );
}

#[test]
fn structured_model_falls_back_to_default() {
    assert_eq!(preferred_structured_model("gpt-json", "gpt"), "gpt-json");
    assert_eq!(preferred_structured_model("", "gpt"), "gpt");
}

#[test]
fn provider_refusals_name_the_stage() {
    assert_eq!(
        meeting_provider_refusal("meeting turn generation", false, true),
        Some("meeting turn generation failed: MODEL_PROVIDER_NOT_CONFIGURED: configure a real model provider before running meetings".to_string())
    );
    assert_eq!(
        meeting_provider_refusal("meeting resolution generation", true, true),
        Some("meeting resolution generation failed: meetings require a real configured provider; mock provider is not accepted".to_string())
    );
    assert_eq!(meeting_provider_refusal("meeting turn generation", true, false), None);
}

#[test]
fn decimal_text_writes_plain_digits() {
    assert_eq!(decimal_text(0), "0");
    assert_eq!(decimal_text(7), "7");
    assert_eq!(decimal_text(10), "10");
    assert_eq!(decimal_text(4001), "4001");
    assert_eq!(decimal_text(u64::MAX), u64::MAX.to_string());
}

#[test]
fn join_with_places_separator_between_pieces() {
    let pieces = vec!["a".to_string(), "".to_string(), "c".to_string()];
    assert_eq!(join_with(&pieces, ", "), "a, , c");
    assert_eq!(join_with(&vec!["only".to_string()], "--"), "only");
    assert_eq!(join_with(&Vec::new(), "--"), "");
}
