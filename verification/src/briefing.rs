//! What a meeting tells the model: the transcript so far, a participant's persona, and the
//! user prompts for one participant's turn and for the closing resolution.
use vstd::prelude::*;

use crate::headers::opt_seq;
use crate::meeting::{inferred_stance, stance_of, turn_views, MeetingTurnDraft, TurnV};
use crate::text::{decimal, decimal_text, join_seq, join_with, trim, trim_seq, views};

verus! {

/// One transcript line: `agent [stance]: text`.
pub open spec fn turn_line(t: TurnV) -> Seq<char> {
    t.agent + " ["@ + t.stance + "]: "@ + t.text
}

pub open spec fn transcript_lines(ts: Seq<TurnV>) -> Seq<Seq<char>> {
    ts.map_values(|t: TurnV| turn_line(t))
}

/// The transcript as text, one line per turn.
pub open spec fn transcript_text_of(ts: Seq<TurnV>) -> Seq<char> {
    join_seq(transcript_lines(ts), "\n"@)
}

pub fn transcript_text(turns: &Vec<MeetingTurnDraft>) -> (r: String)
    ensures
        r@ == transcript_text_of(turn_views(turns@)),
{
    let mut lines: Vec<String> = Vec::new();
    let mut i: usize = 0;
    while i < turns.len()
        invariant
            i <= turns@.len(),
            views(lines@) == transcript_lines(turn_views(turns@)).take(i as int),
        decreases turns@.len() - i,
    {
        let t = &turns[i];
        let line = t.agent_id.clone().concat(" [").concat(t.stance.as_str()).concat("]: ").concat(
            t.text.as_str(),
        );
        let ghost before = lines@;
        lines.push(line);
        proof {
            assert(turn_views(turns@)[i as int] == turns@[i as int]@);
            assert(views(lines@) =~= views(before).push(line@));
            assert(transcript_lines(turn_views(turns@)).take(i + 1) =~= transcript_lines(
                turn_views(turns@),
            ).take(i as int).push(line@));
        }
        i = i + 1;
    }
    assert(transcript_lines(turn_views(turns@)).take(turns@.len() as int) =~= transcript_lines(
        turn_views(turns@),
    ));
    join_with(&lines, "\n")
}

/// What a participant is shown of the turns before its own.
pub open spec fn prior_transcript_of(ts: Seq<TurnV>) -> Seq<char> {
    if ts.len() == 0 {
        "(none yet)"@
    } else {
        transcript_text_of(ts)
    }
}

pub fn prior_transcript(turns: &Vec<MeetingTurnDraft>) -> (r: String)
    ensures
        r@ == prior_transcript_of(turn_views(turns@)),
{
    if turns.len() == 0 {
        String::from_str("(none yet)")
    } else {
        transcript_text(turns)
    }
}

/// The user prompt asking one participant for its statement.
pub open spec fn turn_prompt_of(
    topic: Seq<char>,
    close_mode: Seq<char>,
    participants: Seq<Seq<char>>,
    current: Seq<char>,
    persona: Seq<char>,
    prior: Seq<TurnV>,
) -> Seq<char> {
    "Topic: "@ + topic + "\nClose mode: "@ + close_mode + "\nParticipants: "@ + join_seq(
        participants,
        ", "@,
    ) + "\nCurrent participant: "@ + current + "\nAssigned stance: "@ + stance_of(current)
        + "\nParticipant persona:\n"@ + persona + "\nPrior transcript:\n"@ + prior_transcript_of(
        prior,
    ) + "\nReturn JSON with agent_id, stance, text for the current participant only."@
}

pub fn meeting_turn_user_prompt(
    topic: &str,
    close_mode: &str,
    participants: &Vec<String>,
    current_agent_id: &str,
    persona: &str,
    prior_turns: &Vec<MeetingTurnDraft>,
) -> (r: String)
    ensures
        r@ == turn_prompt_of(
            topic@,
            close_mode@,
            views(participants@),
            current_agent_id@,
            persona@,
            turn_views(prior_turns@),
        ),
{
    let names = join_with(participants, ", ");
    let stance = inferred_stance(current_agent_id);
    let prior = prior_transcript(prior_turns);
    String::from_str("Topic: ").concat(topic).concat("\nClose mode: ").concat(close_mode).concat(
        "\nParticipants: ",
    ).concat(names.as_str()).concat("\nCurrent participant: ").concat(current_agent_id).concat(
        "\nAssigned stance: ",
    ).concat(stance.as_str()).concat("\nParticipant persona:\n").concat(persona).concat(
        "\nPrior transcript:\n",
    ).concat(prior.as_str()).concat(
        "\nReturn JSON with agent_id, stance, text for the current participant only.",
    )
}

/// The user prompt asking for the meeting's resolution.
pub open spec fn resolution_prompt_of(topic: Seq<char>, close_mode: Seq<char>, ts: Seq<TurnV>) -> Seq<
    char,
> {
    "Topic: "@ + topic + "\nClose mode: "@ + close_mode + "\nTranscript:\n"@ + transcript_text_of(ts)
        + "\nReturn JSON with resolution_md and responsibility_anchor."@
}

pub fn meeting_resolution_user_prompt(
    topic: &str,
    close_mode: &str,
    transcript: &Vec<MeetingTurnDraft>,
) -> (r: String)
    ensures
        r@ == resolution_prompt_of(topic@, close_mode@, turn_views(transcript@)),
{
    let text = transcript_text(transcript);
    String::from_str("Topic: ").concat(topic).concat("\nClose mode: ").concat(close_mode).concat(
        "\nTranscript:\n",
    ).concat(text.as_str()).concat("\nReturn JSON with resolution_md and responsibility_anchor.")
}

/// The model for structured output: the configured structured-output model, else the default.
pub fn preferred_structured_model(structured_output_model: &str, default_model: &str) -> (r: String)
    ensures
        r@ == (if structured_output_model@.len() > 0 {
            structured_output_model@
        } else {
            default_model@
        }),
{
    if structured_output_model.unicode_len() > 0 {
        String::from_str(structured_output_model)
    } else {
        String::from_str(default_model)
    }
}

/// Longest persona file section, in characters, shown whole.
pub const PERSONA_SECTION_CHAR_LIMIT: usize = 4000;

/// The employee files that make up a persona, in the order they are shown.
pub fn persona_file_names() -> (r: Vec<&'static str>)
    ensures
        r@.len() == 5,
        r@[0]@ == "identity.md"@,
        r@[1]@ == "soul.md"@,
        r@[2]@ == "agents.md"@,
        r@[3]@ == "owner.md"@,
        r@[4]@ == "tools.md"@,
{
    vec!["identity.md", "soul.md", "agents.md", "owner.md", "tools.md"]
}

/// A markdown file's content as shown: trimmed, and only when something is left.
pub open spec fn shown_markdown(content: Option<Seq<char>>) -> Option<Seq<char>> {
    match content {
        Some(c) => if trim_seq(c).len() > 0 {
            Some(trim_seq(c))
        } else {
            None
        },
        None => None,
    }
}

pub fn nonempty_markdown(content: Option<&str>) -> (r: Option<String>)
    ensures
        match r {
            Some(s) => shown_markdown(match content {
                Some(c) => Some(c@),
                None => None,
            }) == Some(s@),
            None => shown_markdown(match content {
                Some(c) => Some(c@),
                None => None,
            }) is None,
        },
{
    match content {
        Some(c) => {
            let t = trim(c);
            if t.as_str().unicode_len() > 0 {
                Some(t)
            } else {
                None
            }
        },
        None => None,
    }
}

/// A section's content, cut to the limit with a note of its full length when longer.
pub open spec fn clipped(content: Seq<char>) -> Seq<char> {
    if content.len() > PERSONA_SECTION_CHAR_LIMIT {
        content.take(PERSONA_SECTION_CHAR_LIMIT as int) + "\n[TRUNCATED: "@ + decimal(content.len())
            + " chars total]"@
    } else {
        content
    }
}

/// A labelled persona section.
pub open spec fn persona_section(label: Seq<char>, content: Seq<char>) -> Seq<char> {
    "["@ + label + "]\n"@ + clipped(content)
}

pub fn persona_section_text(label: &str, content: &str) -> (r: String)
    ensures
        r@ == persona_section(label@, content@),
{
    let n = content.unicode_len();
    let shown = if n > PERSONA_SECTION_CHAR_LIMIT {
        String::from_str(content.substring_char(0, PERSONA_SECTION_CHAR_LIMIT)).concat(
            "\n[TRUNCATED: ",
        ).concat(decimal_text(n as u64).as_str()).concat(" chars total]")
    } else {
        String::from_str(content)
    };
    String::from_str("[").concat(label).concat("]\n").concat(shown.as_str())
}

/// The sections of a persona: the participant line, the prompt body, then each labelled file
/// that has content.
pub open spec fn persona_sections(
    agent_id: Seq<char>,
    prompt_body: Option<Seq<char>>,
    files: Seq<(Seq<char>, Option<Seq<char>>)>,
) -> Seq<Seq<char>>
    decreases files.len(),
{
    if files.len() == 0 {
        let head = seq!["Participant: "@ + agent_id];
        match prompt_body {
            Some(b) => head.push(b),
            None => head,
        }
    } else {
        let before = persona_sections(agent_id, prompt_body, files.drop_last());
        match files.last().1 {
            Some(c) => before.push(persona_section(files.last().0, c)),
            None => before,
        }
    }
}

pub open spec fn file_views(files: Seq<(String, Option<String>)>) -> Seq<(Seq<char>, Option<Seq<char>>)> {
    files.map_values(
        |f: (String, Option<String>)|
            (
                f.0@,
                match f.1 {
                    Some(c) => Some(c@),
                    None => None,
                },
            ),
    )
}

/// A participant's persona: its sections separated by blank lines. `prompt_body` and the file
/// contents are what is shown of them (see `nonempty_markdown`).
pub fn participant_persona(
    agent_id: &str,
    prompt_body: Option<String>,
    files: &Vec<(String, Option<String>)>,
) -> (r: String)
    ensures
        r@ == join_seq(
            persona_sections(
                agent_id@,
                opt_seq(prompt_body),
                file_views(files@),
            ),
            "\n\n"@,
        ),
{
    let ghost body = opt_seq(prompt_body);
    let ghost fs = file_views(files@);
    let mut sections: Vec<String> = Vec::new();
    sections.push(String::from_str("Participant: ").concat(agent_id));
    match prompt_body {
        Some(b) => {
            sections.push(b);
        },
        None => {},
    }
    proof {
        assert(fs.take(0) =~= Seq::<(Seq<char>, Option<Seq<char>>)>::empty());
        assert(views(sections@) =~= persona_sections(agent_id@, body, fs.take(0)));
    }
    let mut i: usize = 0;
    while i < files.len()
        invariant
            i <= files@.len(),
            fs == file_views(files@),
            views(sections@) == persona_sections(agent_id@, body, fs.take(i as int)),
        decreases files@.len() - i,
    {
        proof {
            assert(fs.take(i + 1).drop_last() =~= fs.take(i as int));
            assert(fs.take(i + 1).last() == fs[i as int]);
        }
        match &files[i].1 {
            Some(c) => {
                let sec = persona_section_text(files[i].0.as_str(), c.as_str());
                let ghost before = sections@;
                sections.push(sec);
                assert(views(sections@) =~= views(before).push(sec@));
            },
            None => {},
        }
        i = i + 1;
    }
    assert(fs.take(files@.len() as int) =~= fs);
    join_with(&sections, "\n\n")
}


/// Why a meeting step cannot ask the model provider, if it cannot: no provider is configured,
/// or the configured one is the mock. `stage` names the step in the message.
pub open spec fn provider_refusal(stage: Seq<char>, configured: bool, is_mock: bool) -> Option<Seq<char>> {
    if !configured {
        Some(
            stage
                + " failed: MODEL_PROVIDER_NOT_CONFIGURED: configure a real model provider before running meetings"@,
        )
    } else if is_mock {
        Some(stage + " failed: meetings require a real configured provider; mock provider is not accepted"@)
    } else {
        None
    }
}

pub fn meeting_provider_refusal(stage: &str, configured: bool, is_mock: bool) -> (r: Option<String>)
    ensures
        opt_seq(r) == provider_refusal(stage@, configured, is_mock),
{
    if !configured {
        Some(
            String::from_str(stage).concat(
                " failed: MODEL_PROVIDER_NOT_CONFIGURED: configure a real model provider before running meetings",
            ),
        )
    } else if is_mock {
        Some(
            String::from_str(stage).concat(
                " failed: meetings require a real configured provider; mock provider is not accepted",
            ),
        )
    } else {
        None
    }
}

} // verus!
