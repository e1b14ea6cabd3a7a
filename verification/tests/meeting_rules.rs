use coevo_server::meeting::{
    infer_meeting_responsibility_anchor, inferred_stance, normalize_meeting_participant_id,
    MeetingTurnDraft,
};
use coevo_server::organization::{
    validate_meeting_request, CreateMeetingRequest, MeetingRequestError,
};

fn participants() -> Vec<String> {
    vec![
        "agent-founder-01".to_string(),
        "agent-pm-01".to_string(),
        "agent-critic-01".to_string(),
    ]
}

#[test]
fn scrutiny_roles_oppose_and_others_support() {
    assert_eq!(inferred_stance("agent-critic-01"), "oppose");
    assert_eq!(inferred_stance("agent-risk-lead"), "oppose");
    assert_eq!(inferred_stance("compliance-officer"), "oppose");
    assert_eq!(inferred_stance("governance"), "oppose");
    assert_eq!(inferred_stance("internal-audit"), "oppose");
    assert_eq!(inferred_stance("legal-counsel"), "oppose");
    assert_eq!(inferred_stance("agent-founder-01"), "support");
    assert_eq!(inferred_stance(""), "support");
}

#[test]
fn stance_reads_the_role_case_insensitively() {
    // Upper-case roles only oppose once lower-cased.
    assert_eq!(inferred_stance("AGENT-AUDIT-01"), "oppose");
    assert_eq!(inferred_stance("Chief Risk Officer"), "oppose");
    assert_eq!(inferred_stance("LEGAL"), "oppose");
    assert_eq!(inferred_stance("Founder"), "support");
}

#[test]
fn participant_labels_normalize_to_ids() {
    let ps = participants();
    assert_eq!(
        normalize_meeting_participant_id(" agent-pm-01 ", &ps),
        Some("agent-pm-01".to_string())
    );
    assert_eq!(
        normalize_meeting_participant_id("Founder", &ps),
        Some("agent-founder-01".to_string())
    );
    assert_eq!(
        normalize_meeting_participant_id("Product Manager", &ps),
        Some("agent-pm-01".to_string())
    );
    assert_eq!(normalize_meeting_participant_id("PM", &ps), Some("agent-pm-01".to_string()));
    assert_eq!(
        normalize_meeting_participant_id("risk", &ps),
        Some("agent-critic-01".to_string())
    );
    assert_eq!(
        normalize_meeting_participant_id("Critic", &ps),
        Some("agent-critic-01".to_string())
    );
    assert_eq!(normalize_meeting_participant_id("Designer", &ps), None);
    assert_eq!(normalize_meeting_participant_id("   ", &ps), None);
    assert_eq!(normalize_meeting_participant_id("Founder", &Vec::new()), None);
}

fn turn(agent: &str, stance: &str) -> MeetingTurnDraft {
    MeetingTurnDraft { agent_id: agent.to_string(), stance: stance.to_string(), text: "x".to_string() }
}

#[test]
fn anchor_is_first_supporter_else_first_speaker() {
    let ps = participants();
    let t = vec![turn("agent-critic-01", "oppose"), turn("agent-pm-01", "SUPPORT"), turn("agent-founder-01", "support")];
    assert_eq!(infer_meeting_responsibility_anchor(&t, &ps), Some("agent-pm-01".to_string()));
    let none_support = vec![turn("agent-critic-01", "oppose"), turn("agent-pm-01", "neutral")];
    assert_eq!(
        infer_meeting_responsibility_anchor(&none_support, &ps),
        Some("agent-critic-01".to_string())
    );
    let outsider = vec![turn("guest", "support"), turn("agent-pm-01", "support")];
    assert_eq!(infer_meeting_responsibility_anchor(&outsider, &ps), None);
    assert_eq!(infer_meeting_responsibility_anchor(&Vec::new(), &ps), None);
}

fn request(topic: &str, participants: &[&str], close_mode: &str) -> CreateMeetingRequest {
    CreateMeetingRequest {
        topic: topic.to_string(),
        participants: participants.iter().map(|p| p.to_string()).collect(),
        close_mode: close_mode.to_string(),
    }
}

#[test]
fn meeting_requests_are_checked_in_order() {
    assert_eq!(
        validate_meeting_request(&request("  ", &[], "nope")),
        Err(MeetingRequestError::TopicRequired)
    );
    assert_eq!(
        validate_meeting_request(&request("B2B?", &[], "nope")),
        Err(MeetingRequestError::ParticipantsRequired)
    );
    assert_eq!(
        validate_meeting_request(&request("B2B?", &["agent-critic-01"], "consensus")),
        Err(MeetingRequestError::InvalidCloseMode)
    );
    assert_eq!(
        validate_meeting_request(&request("B2B?", &["agent-founder-01", "agent-pm-01"], "vote")),
        Err(MeetingRequestError::NoScrutinyRole)
    );
    assert_eq!(
        validate_meeting_request(&request("B2B?", &["agent-founder-01", "agent-critic-01"], "chair")),
        Ok(())
    );
}

#[test]
fn meeting_request_errors_have_their_messages() {
    assert_eq!(MeetingRequestError::TopicRequired.message(), "topic is required");
    assert_eq!(MeetingRequestError::ParticipantsRequired.message(), "participants are required");
    assert_eq!(MeetingRequestError::InvalidCloseMode.message(), "close_mode must be vote or chair");
    assert_eq!(
        MeetingRequestError::NoScrutinyRole.message(),
        "meetings must include a scrutiny role (risk, compliance, governance, audit, legal, or critic) as a dissenting participant"
    );
}

#[test]
fn meeting_refusals_are_unprocessable() {
    assert_eq!(MeetingRequestError::TopicRequired.status(), 422);
    assert_eq!(MeetingRequestError::NoScrutinyRole.status(), 422);
}
