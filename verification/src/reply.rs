//! Reading meeting statements out of provider JSON replies.
//!
//! A reply is held as the fields that the meeting rules read: each field of an object is either
//! a string or some other JSON value, and a transcript is a list of objects, a text block, or
//! something else.
use vstd::prelude::*;

use crate::meeting::{
    has_scrutiny_marker, infer_meeting_responsibility_anchor, inferred_anchor, inferred_stance,
    lemma_normalized_is_participant, lemma_normalized_nonempty, lemma_stance_is_oppose_or_support, normalize_meeting_participant_id, normalized_participant, stance_of, turn_views, unicode_lowercase, MeetingDraft,
    MeetingTurnDraft, TurnV,
};
use crate::text::{
    chars_of, eq_ic, eq_ignore_ascii_case, lemma_trim_idempotent, same_text, split_by_char,
    split_on, trim, trim_seq, vec_contains_str, views,
};

verus! {

/// A JSON field value as the meeting rules see it.
pub enum JsonField {
    Text(String),
    NonText,
}

/// A JSON object: its keys in order, each with its value.
pub struct JsonObject {
    pub entries: Vec<(String, JsonField)>,
}

/// A meeting transcript as a provider wrote it.
pub enum TranscriptValue {
    /// A JSON array; an element that is not an object stands as an object without fields.
    Items(Vec<JsonObject>),
    /// A block of `speaker: statement` lines. Lines are the pieces between newlines; as each is
    /// trimmed and blank ones are skipped, this reads a block as `str::lines` does.
    Text(String),
    /// Any other JSON value.
    NonText,
}

/// A provider reply that drafts a whole meeting: its `transcript` value, if present, and its
/// other top-level fields.
pub struct MeetingReply {
    pub transcript: Option<TranscriptValue>,
    pub fields: JsonObject,
}

/// `None`: no such key; `Some(None)`: a value that is not a string; `Some(Some(s))`: the string.
pub open spec fn lookup(es: Seq<(String, JsonField)>, key: Seq<char>) -> Option<Option<Seq<char>>>
    decreases es.len(),
{
    if es.len() == 0 {
        None
    } else if es[0].0@ == key {
        Some(
            match es[0].1 {
                JsonField::Text(s) => Some(s@),
                JsonField::NonText => None,
            },
        )
    } else {
        lookup(es.drop_first(), key)
    }
}

pub open spec fn or_else<T>(a: Option<T>, b: Option<T>) -> Option<T> {
    if a is Some {
        a
    } else {
        b
    }
}

/// The string a looked-up field holds, if it is one.
pub open spec fn text_of(v: Option<Option<Seq<char>>>) -> Option<Seq<char>> {
    match v {
        Some(Some(s)) => Some(s),
        _ => None,
    }
}

pub open spec fn field_view(r: Option<Option<String>>) -> Option<Option<Seq<char>>> {
    match r {
        None => None,
        Some(None) => Some(None),
        Some(Some(s)) => Some(Some(s@)),
    }
}

/// First present of `agent_id`, `agent`, `speaker`, `role`, `participant`, `name`.
pub open spec fn agent_field(es: Seq<(String, JsonField)>) -> Option<Option<Seq<char>>> {
    or_else(
        lookup(es, "agent_id"@),
        or_else(
            lookup(es, "agent"@),
            or_else(
                lookup(es, "speaker"@),
                or_else(
                    lookup(es, "role"@),
                    or_else(lookup(es, "participant"@), lookup(es, "name"@)),
                ),
            ),
        ),
    )
}

/// First present of `text`, `statement`, `message`, `content`.
pub open spec fn text_field(es: Seq<(String, JsonField)>) -> Option<Option<Seq<char>>> {
    or_else(
        lookup(es, "text"@),
        or_else(
            lookup(es, "statement"@),
            or_else(lookup(es, "message"@), lookup(es, "content"@)),
        ),
    )
}

/// First present of `resolution_md`, `resolution`, `decision_md`, `summary_md`.
pub open spec fn resolution_field(es: Seq<(String, JsonField)>) -> Option<Option<Seq<char>>> {
    or_else(
        lookup(es, "resolution_md"@),
        or_else(
            lookup(es, "resolution"@),
            or_else(lookup(es, "decision_md"@), lookup(es, "summary_md"@)),
        ),
    )
}

/// First present of `responsibility_anchor`, `owner`, `chair`.
pub open spec fn anchor_field(es: Seq<(String, JsonField)>) -> Option<Option<Seq<char>>> {
    or_else(
        lookup(es, "responsibility_anchor"@),
        or_else(lookup(es, "owner"@), lookup(es, "chair"@)),
    )
}

/// The value of the first entry with key `key`.
pub fn lookup_field(o: &JsonObject, key: &str) -> (r: Option<Option<String>>)
    ensures
        field_view(r) == lookup(o.entries@, key@),
{
    let ghost es = o.entries@;
    let n = o.entries.len();
    let mut i: usize = 0;
    assert(es.skip(0) =~= es);
    while i < n
        invariant
            es == o.entries@,
            n == es.len(),
            i <= n,
            lookup(es, key@) == lookup(es.skip(i as int), key@),
        decreases n - i,
    {
        assert(es.skip(i as int)[0] == es[i as int]);
        let entry = &o.entries[i];
        if crate::text::same_text(entry.0.as_str(), key) {
            return match &entry.1 {
                JsonField::Text(s) => Some(Some(s.clone())),
                JsonField::NonText => Some(None),
            };
        }
        assert(es.skip(i as int).drop_first() =~= es.skip(i + 1));
        i = i + 1;
    }
    None
}

fn agent_field_of(o: &JsonObject) -> (r: Option<Option<String>>)
    ensures
        field_view(r) == agent_field(o.entries@),
{
    let r = lookup_field(o, "agent_id");
    if r.is_some() {
        return r;
    }
    let r = lookup_field(o, "agent");
    if r.is_some() {
        return r;
    }
    let r = lookup_field(o, "speaker");
    if r.is_some() {
        return r;
    }
    let r = lookup_field(o, "role");
    if r.is_some() {
        return r;
    }
    let r = lookup_field(o, "participant");
    if r.is_some() {
        return r;
    }
    lookup_field(o, "name")
}

fn text_field_of(o: &JsonObject) -> (r: Option<Option<String>>)
    ensures
        field_view(r) == text_field(o.entries@),
{
    let r = lookup_field(o, "text");
    if r.is_some() {
        return r;
    }
    let r = lookup_field(o, "statement");
    if r.is_some() {
        return r;
    }
    let r = lookup_field(o, "message");
    if r.is_some() {
        return r;
    }
    lookup_field(o, "content")
}

fn resolution_field_of(o: &JsonObject) -> (r: Option<Option<String>>)
    ensures
        field_view(r) == resolution_field(o.entries@),
{
    let r = lookup_field(o, "resolution_md");
    if r.is_some() {
        return r;
    }
    let r = lookup_field(o, "resolution");
    if r.is_some() {
        return r;
    }
    let r = lookup_field(o, "decision_md");
    if r.is_some() {
        return r;
    }
    lookup_field(o, "summary_md")
}

fn anchor_field_of(o: &JsonObject) -> (r: Option<Option<String>>)
    ensures
        field_view(r) == anchor_field(o.entries@),
{
    let r = lookup_field(o, "responsibility_anchor");
    if r.is_some() {
        return r;
    }
    let r = lookup_field(o, "owner");
    if r.is_some() {
        return r;
    }
    lookup_field(o, "chair")
}

/// The string a field holds, taken by value.
fn text_value(r: Option<Option<String>>) -> (t: Option<String>)
    ensures
        t matches Some(s) ==> text_of(field_view(r)) == Some(s@),
        t is None ==> text_of(field_view(r)) is None,
{
    match r {
        Some(Some(s)) => Some(s),
        _ => None,
    }
}


/// The participant a trimmed speaker label stands for, or the label itself.
pub open spec fn speaker_id(label: Seq<char>, ps: Seq<Seq<char>>) -> Seq<char> {
    match normalized_participant(label, ps) {
        Some(p) => p,
        None => label,
    }
}

/// The stance a turn states, or else the speaker's default stance.
pub open spec fn stated_stance(raw: Option<Seq<char>>, agent: Seq<char>) -> Seq<char> {
    match raw {
        Some(s) => if trim_seq(s).len() > 0 {
            trim_seq(s)
        } else {
            stance_of(agent)
        },
        None => stance_of(agent),
    }
}

/// The turn one transcript object describes, if it names a speaker and a statement.
pub open spec fn item_turn(es: Seq<(String, JsonField)>, ps: Seq<Seq<char>>) -> Option<TurnV> {
    match text_of(agent_field(es)) {
        None => None,
        Some(raw_agent) => {
            let agent = speaker_id(trim_seq(raw_agent), ps);
            match text_of(text_field(es)) {
                None => None,
                Some(raw_text) => {
                    let text = trim_seq(raw_text);
                    let stance = stated_stance(text_of(lookup(es, "stance"@)), agent);
                    if agent.len() == 0 || stance.len() == 0 || text.len() == 0 {
                        None
                    } else {
                        Some(TurnV { agent, stance, text })
                    }
                },
            }
        },
    }
}

/// The turns of a transcript list, objects that describe none skipped.
pub open spec fn items_turns(items: Seq<JsonObject>, ps: Seq<Seq<char>>) -> Seq<TurnV>
    decreases items.len(),
{
    if items.len() == 0 {
        Seq::empty()
    } else {
        match item_turn(items.last().entries@, ps) {
            Some(t) => items_turns(items.drop_last(), ps).push(t),
            None => items_turns(items.drop_last(), ps),
        }
    }
}

fn speaker_id_of(label: String, participants: &Vec<String>) -> (r: String)
    ensures
        r@ == speaker_id(label@, views(participants@)),
{
    match normalize_meeting_participant_id(label.as_str(), participants) {
        Some(p) => p,
        None => label,
    }
}

fn stated_stance_of(raw: Option<String>, agent: &str) -> (r: String)
    ensures
        r@ == stated_stance(
            match raw {
                Some(s) => Some(s@),
                None => None,
            },
            agent@,
        ),
{
    match raw {
        Some(s) => {
            let t = trim(s.as_str());
            if t.as_str().unicode_len() > 0 {
                t
            } else {
                inferred_stance(agent)
            }
        },
        None => inferred_stance(agent),
    }
}

/// The turn one transcript object describes.
pub fn turn_from_item(item: &JsonObject, participants: &Vec<String>) -> (r: Option<
    MeetingTurnDraft,
>)
    ensures
        r matches Some(t) ==> item_turn(item.entries@, views(participants@)) == Some(t@),
        r is None ==> item_turn(item.entries@, views(participants@)) is None,
{
    let raw_agent = match text_value(agent_field_of(item)) {
        Some(a) => a,
        None => return None,
    };
    let agent = speaker_id_of(trim(raw_agent.as_str()), participants);
    let raw_text = match text_value(text_field_of(item)) {
        Some(t) => t,
        None => return None,
    };
    let text = trim(raw_text.as_str());
    let stance = stated_stance_of(text_value(lookup_field(item, "stance")), agent.as_str());
    if agent.as_str().unicode_len() == 0 || stance.as_str().unicode_len() == 0
        || text.as_str().unicode_len() == 0 {
        return None;
    }
    Some(MeetingTurnDraft { agent_id: agent, stance, text })
}

/// The turns of a transcript list, in order.
pub fn items_turns_of(items: &Vec<JsonObject>, participants: &Vec<String>) -> (r: Vec<
    MeetingTurnDraft,
>)
    ensures
        turn_views(r@) == items_turns(items@, views(participants@)),
{
    let ghost ps = views(participants@);
    let n = items.len();
    let mut r: Vec<MeetingTurnDraft> = Vec::new();
    let mut i: usize = 0;
    while i < n
        invariant
            ps == views(participants@),
            n == items@.len(),
            i <= n,
            turn_views(r@) == items_turns(items@.take(i as int), ps),
        decreases n - i,
    {
        assert(items@.take(i + 1).drop_last() =~= items@.take(i as int));
        assert(items@.take(i + 1).last() == items@[i as int]);
        match turn_from_item(&items[i], participants) {
            Some(t) => {
                r.push(t);
                assert(turn_views(r@) =~= items_turns(items@.take(i as int), ps).push(
                    r@.last()@,
                ));
            },
            None => {},
        }
        i = i + 1;
    }
    assert(items@.take(n as int) =~= items@);
    r
}


/// Index of the first `c` in `s`.
pub open spec fn first_index_of(s: Seq<char>, c: char) -> Option<int>
    decreases s.len(),
{
    if s.len() == 0 {
        None
    } else {
        match first_index_of(s.drop_last(), c) {
            Some(k) => Some(k),
            None => if s.last() == c {
                Some(s.len() - 1)
            } else {
                None
            },
        }
    }
}

fn first_colon_of(c: &Vec<char>) -> (r: Option<usize>)
    ensures
        r matches Some(k) ==> first_index_of(c@, ':') == Some(k as int),
        r is None ==> first_index_of(c@, ':') is None,
{
    let n = c.len();
    let mut i: usize = 0;
    while i < n
        invariant
            n == c@.len(),
            i <= n,
            first_index_of(c@.take(i as int), ':') is None,
        decreases n - i,
    {
        assert(c@.take(i + 1).drop_last() =~= c@.take(i as int));
        if c[i] == ':' {
            proof {
                lemma_first_index_prefix(c@, i as int);
            }
            return Some(i);
        }
        i = i + 1;
    }
    assert(c@.take(n as int) =~= c@);
    None
}

proof fn lemma_first_index_in_range(s: Seq<char>, c: char)
    ensures
        first_index_of(s, c) matches Some(k) ==> 0 <= k < s.len() && s[k] == c,
    decreases s.len(),
{
    if s.len() > 0 {
        lemma_first_index_in_range(s.drop_last(), c);
    }
}

proof fn lemma_first_index_prefix(s: Seq<char>, i: int)
    requires
        0 <= i < s.len(),
        first_index_of(s.take(i), ':') is None,
        s[i] == ':',
    ensures
        first_index_of(s, ':') == Some(i),
    decreases s.len(),
{
    assert(s.take(i + 1).drop_last() =~= s.take(i));
    if s.len() == i + 1 {
        assert(s.take(i + 1) =~= s);
    } else {
        let t = s.drop_last();
        assert(t.take(i) =~= s.take(i));
        lemma_first_index_prefix(t, i);
    }
}

/// What one line of a text transcript contributes.
pub enum LineOutcome {
    Skip,
    Abort,
    Turn(TurnV),
}

/// A text transcript line: blank lines and lines of non-participants are skipped; a
/// non-blank line without `:` rejects the whole transcript.
pub open spec fn line_outcome(line: Seq<char>, ps: Seq<Seq<char>>) -> LineOutcome {
    let t = trim_seq(line);
    if t.len() == 0 {
        LineOutcome::Skip
    } else {
        match first_index_of(t, ':') {
            None => LineOutcome::Abort,
            Some(k) => {
                let agent = speaker_id(trim_seq(t.subrange(0, k)), ps);
                let text = trim_seq(t.subrange(k + 1, t.len() as int));
                if agent.len() == 0 || text.len() == 0 || !ps.contains(agent) {
                    LineOutcome::Skip
                } else {
                    LineOutcome::Turn(TurnV { agent, stance: stance_of(agent), text })
                }
            },
        }
    }
}

/// The turns of a sequence of transcript lines, or `None` when a line rejects them.
pub open spec fn lines_turns(lines: Seq<Seq<char>>, ps: Seq<Seq<char>>) -> Option<Seq<TurnV>>
    decreases lines.len(),
{
    if lines.len() == 0 {
        Some(Seq::empty())
    } else {
        match lines_turns(lines.drop_last(), ps) {
            None => None,
            Some(prev) => match line_outcome(lines.last(), ps) {
                LineOutcome::Skip => Some(prev),
                LineOutcome::Abort => None,
                LineOutcome::Turn(t) => Some(prev.push(t)),
            },
        }
    }
}

proof fn lemma_lines_turns_abort(lines: Seq<Seq<char>>, ps: Seq<Seq<char>>, i: int)
    requires
        0 <= i < lines.len(),
        line_outcome(lines[i], ps) is Abort,
    ensures
        lines_turns(lines, ps) is None,
    decreases lines.len(),
{
    if i < lines.len() - 1 {
        lemma_lines_turns_abort(lines.drop_last(), ps, i);
    }
}

/// The turn a text line describes (see `line_outcome`).
fn line_turn(line: &str, participants: &Vec<String>) -> (r: Result<Option<MeetingTurnDraft>, ()>)
    ensures
        r matches Ok(Some(t)) ==> line_outcome(line@, views(participants@)) == LineOutcome::Turn(
            t@,
        ),
        r matches Ok(None) ==> line_outcome(line@, views(participants@)) is Skip,
        r is Err ==> line_outcome(line@, views(participants@)) is Abort,
{
    let trimmed = trim(line);
    let t = trimmed.as_str();
    let c = chars_of(t);
    if c.len() == 0 {
        return Ok(None);
    }
    let k = match first_colon_of(&c) {
        Some(k) => k,
        None => return Err(()),
    };
    proof {
        lemma_first_index_in_range(c@, ':');
    }
    let agent = speaker_id_of(trim(t.substring_char(0, k)), participants);
    let text = trim(t.substring_char(k + 1, c.len()));
    if agent.as_str().unicode_len() == 0 || text.as_str().unicode_len() == 0
        || !vec_contains_str(participants, agent.as_str()) {
        return Ok(None);
    }
    let stance = inferred_stance(agent.as_str());
    Ok(Some(MeetingTurnDraft { agent_id: agent, stance, text }))
}

/// The turns of a transcript as a provider wrote it: a list yields the turns its objects
/// describe (possibly none); a text block yields its participant lines, and nothing when it is
/// blank, has a non-blank line without `:`, or holds no participant line; any other value
/// yields nothing.
pub open spec fn transcript_turns(t: TranscriptValue, ps: Seq<Seq<char>>) -> Option<Seq<TurnV>> {
    match t {
        TranscriptValue::Items(items) => Some(items_turns(items@, ps)),
        TranscriptValue::Text(s) => {
            let body = trim_seq(s@);
            if body.len() == 0 {
                None
            } else {
                match lines_turns(split_on(body, '\n'), ps) {
                    None => None,
                    Some(ts) => if ts.len() == 0 {
                        None
                    } else {
                        Some(ts)
                    },
                }
            }
        },
        TranscriptValue::NonText => None,
    }
}

pub fn parse_transcript_turns(transcript: &TranscriptValue, participants: &Vec<String>) -> (r:
    Option<Vec<MeetingTurnDraft>>)
    ensures
        r matches Some(ts) ==> transcript_turns(*transcript, views(participants@)) == Some(
            turn_views(ts@),
        ),
        r is None ==> transcript_turns(*transcript, views(participants@)) is None,
{
    let ghost ps = views(participants@);
    match transcript {
        TranscriptValue::Items(items) => Some(items_turns_of(items, participants)),
        TranscriptValue::NonText => None,
        TranscriptValue::Text(s) => {
            let body = trim(s.as_str());
            if body.as_str().unicode_len() == 0 {
                return None;
            }
            let lines = split_by_char(body.as_str(), '\n');
            let ghost ls = views(lines@);
            let n = lines.len();
            let mut turns: Vec<MeetingTurnDraft> = Vec::new();
            let mut i: usize = 0;
            while i < n
                invariant
                    ps == views(participants@),
                    ls == views(lines@),
                    ls == split_on(trim_seq(s@), '\n'),
                    *transcript == TranscriptValue::Text(*s),
                    trim_seq(s@).len() > 0,
                    n == ls.len(),
                    i <= n,
                    lines_turns(ls.take(i as int), ps) == Some(turn_views(turns@)),
                decreases n - i,
            {
                assert(ls.take(i + 1).drop_last() =~= ls.take(i as int));
                assert(ls.take(i + 1).last() == lines@[i as int]@);
                match line_turn(lines[i].as_str(), participants) {
                    Err(()) => {
                        proof {
                            assert(ls[i as int] == lines@[i as int]@);
                            lemma_lines_turns_abort(ls, ps, i as int);
                            assert(ls == split_on(trim_seq(s@), '\n'));
                            assert(lines_turns(split_on(trim_seq(s@), '\n'), ps) is None);
                        }
                        return None;
                    },
                    Ok(Some(t)) => {
                        let ghost before = turns@;
                        turns.push(t);
                        assert(turn_views(turns@) =~= turn_views(before).push(t@));
                    },
                    Ok(None) => {},
                }
                i = i + 1;
            }
            assert(ls.take(n as int) =~= ls);
            if turns.len() == 0 {
                None
            } else {
                Some(turns)
            }
        },
    }
}


/// The anchor a draft names: a non-blank name that stands for a participant, else empty.
pub open spec fn draft_anchor(raw: Option<Seq<char>>, ps: Seq<Seq<char>>) -> Seq<char> {
    match raw {
        Some(a) => if trim_seq(a).len() > 0 {
            match normalized_participant(trim_seq(a), ps) {
                Some(p) => p,
                None => Seq::empty(),
            }
        } else {
            Seq::empty()
        },
        None => Seq::empty(),
    }
}

/// Some turn is spoken by `p`.
pub open spec fn speaks_in(ts: Seq<TurnV>, p: Seq<char>) -> bool {
    exists|j: int| 0 <= j < ts.len() && #[trigger] ts[j].agent == p
}

/// Every participant has a turn.
pub open spec fn every_participant_speaks(ts: Seq<TurnV>, ps: Seq<Seq<char>>) -> bool {
    forall|i: int| 0 <= i < ps.len() ==> #[trigger] speaks_in(ts, ps[i])
}

/// A scrutiny role spoke and stated opposition.
pub open spec fn scrutiny_opposes(ts: Seq<TurnV>) -> bool {
    exists|j: int|
        0 <= j < ts.len() && has_scrutiny_marker(unicode_lowercase(#[trigger] ts[j].agent))
            && eq_ic(ts[j].stance, "oppose"@)
}

/// The meeting a provider reply drafts: its turns, its trimmed resolution and its anchor, when
/// the transcript has turns, the resolution and anchor are not empty, every participant spoke,
/// and a scrutiny role opposed.
pub open spec fn meeting_draft_of(reply: MeetingReply, ps: Seq<Seq<char>>) -> Option<
    (Seq<TurnV>, Seq<char>, Seq<char>),
> {
    match reply.transcript {
        None => None,
        Some(t) => match transcript_turns(t, ps) {
            None => None,
            Some(turns) => match text_of(resolution_field(reply.fields.entries@)) {
                None => None,
                Some(raw_res) => {
                    let res = trim_seq(raw_res);
                    let anchor = draft_anchor(text_of(anchor_field(reply.fields.entries@)), ps);
                    if turns.len() == 0 || res.len() == 0 || anchor.len() == 0
                        || !every_participant_speaks(turns, ps) || !scrutiny_opposes(turns) {
                        None
                    } else {
                        Some((turns, res, anchor))
                    }
                },
            },
        },
    }
}

fn speaks(turns: &Vec<MeetingTurnDraft>, p: &str) -> (r: bool)
    ensures
        r == speaks_in(turn_views(turns@), p@),
{
    let n = turns.len();
    let mut j: usize = 0;
    while j < n
        invariant
            n == turns@.len(),
            j <= n,
            forall|k: int| 0 <= k < j ==> #[trigger] turn_views(turns@)[k].agent != p@,
        decreases n - j,
    {
        if same_text(turns[j].agent_id.as_str(), p) {
            assert(turn_views(turns@)[j as int].agent == p@);
            return true;
        }
        assert(turn_views(turns@)[j as int].agent == turns@[j as int].agent_id@);
        j = j + 1;
    }
    false
}

fn all_participants_speak(turns: &Vec<MeetingTurnDraft>, participants: &Vec<String>) -> (r: bool)
    ensures
        r == every_participant_speaks(turn_views(turns@), views(participants@)),
{
    let ghost ps = views(participants@);
    let ghost ts = turn_views(turns@);
    let n = participants.len();
    let mut i: usize = 0;
    while i < n
        invariant
            ps == views(participants@),
            ts == turn_views(turns@),
            n == ps.len(),
            i <= n,
            forall|k: int| 0 <= k < i ==> #[trigger] speaks_in(ts, ps[k]),
        decreases n - i,
    {
        assert(ps[i as int] == participants@[i as int]@);
        if !speaks(turns, participants[i].as_str()) {
            return false;
        }
        i = i + 1;
    }
    true
}

fn some_scrutiny_role_opposes(turns: &Vec<MeetingTurnDraft>) -> (r: bool)
    ensures
        r == scrutiny_opposes(turn_views(turns@)),
{
    let ghost ts = turn_views(turns@);
    let n = turns.len();
    let mut j: usize = 0;
    proof {
        reveal_strlit("oppose");
        reveal_strlit("support");
        assert("oppose"@.len() != "support"@.len());
    }
    while j < n
        invariant
            ts == turn_views(turns@),
            n == ts.len(),
            j <= n,
            "oppose"@ != "support"@,
            forall|k: int|
                0 <= k < j ==> !(has_scrutiny_marker(unicode_lowercase(#[trigger] ts[k].agent))
                    && eq_ic(ts[k].stance, "oppose"@)),
        decreases n - j,
    {
        assert(ts[j as int] == turns@[j as int]@);
        let stance = inferred_stance(turns[j].agent_id.as_str());
        if same_text(stance.as_str(), "oppose") && eq_ignore_ascii_case(
            turns[j].stance.as_str(),
            "oppose",
        ) {
            assert(has_scrutiny_marker(unicode_lowercase(ts[j as int].agent)) && eq_ic(
                ts[j as int].stance,
                "oppose"@,
            ));
            return true;
        }
        j = j + 1;
    }
    false
}

fn draft_anchor_of(raw: Option<String>, participants: &Vec<String>) -> (r: String)
    ensures
        r@ == draft_anchor(
            match raw {
                Some(s) => Some(s@),
                None => None,
            },
            views(participants@),
        ),
{
    match raw {
        Some(a) => {
            let t = trim(a.as_str());
            if t.as_str().unicode_len() > 0 {
                match normalize_meeting_participant_id(t.as_str(), participants) {
                    Some(p) => p,
                    None => String::new(),
                }
            } else {
                String::new()
            }
        },
        None => String::new(),
    }
}

/// Reads a whole meeting out of a provider reply (see `meeting_draft_of`).
pub fn parse_meeting_draft(reply: &MeetingReply, participants: &Vec<String>) -> (r: Option<
    MeetingDraft,
>)
    ensures
        r matches Some(d) ==> meeting_draft_of(*reply, views(participants@)) == Some(
            (turn_views(d.transcript@), d.resolution_md@, d.responsibility_anchor@),
        ),
        r is None ==> meeting_draft_of(*reply, views(participants@)) is None,
{
    let turns = match &reply.transcript {
        Some(t) => match parse_transcript_turns(t, participants) {
            Some(ts) => ts,
            None => return None,
        },
        None => return None,
    };
    let raw_res = match text_value(resolution_field_of(&reply.fields)) {
        Some(r) => r,
        None => return None,
    };
    let resolution_md = trim(raw_res.as_str());
    let responsibility_anchor = draft_anchor_of(
        text_value(anchor_field_of(&reply.fields)),
        participants,
    );
    if turns.len() == 0 || resolution_md.as_str().unicode_len() == 0
        || responsibility_anchor.as_str().unicode_len() == 0 {
        return None;
    }
    if !all_participants_speak(&turns, participants) {
        return None;
    }
    if !some_scrutiny_role_opposes(&turns) {
        return None;
    }
    Some(MeetingDraft { transcript: turns, resolution_md, responsibility_anchor })
}


/// A field's string, trimmed, when it is a non-blank string.
pub open spec fn nonblank(v: Option<Option<Seq<char>>>) -> Option<Seq<char>> {
    match text_of(v) {
        Some(s) => if trim_seq(s).len() > 0 {
            Some(trim_seq(s))
        } else {
            None
        },
        None => None,
    }
}

fn nonblank_of(r: Option<Option<String>>) -> (t: Option<String>)
    ensures
        t matches Some(s) ==> nonblank(field_view(r)) == Some(s@),
        t is None ==> nonblank(field_view(r)) is None,
{
    match text_value(r) {
        Some(s) => {
            let t = trim(s.as_str());
            if t.as_str().unicode_len() > 0 {
                Some(t)
            } else {
                None
            }
        },
        None => None,
    }
}

/// The statement a provider reply gives for the participant `current`: the named speaker (a
/// participant, else `current`), the stated or default stance, and the non-blank text.
pub open spec fn reply_turn(reply: Option<JsonObject>, ps: Seq<Seq<char>>, current: Seq<char>) -> Result<
    TurnV,
    Seq<char>,
> {
    match reply {
        None => Err("meeting turn generation failed: provider returned no JSON"@),
        Some(o) => {
            let es = o.entries@;
            let agent = match nonblank(lookup(es, "agent_id"@)) {
                Some(a) => match normalized_participant(a, ps) {
                    Some(p) => p,
                    None => current,
                },
                None => current,
            };
            match nonblank(text_field(es)) {
                None => Err("meeting turn generation failed: provider JSON missing text"@),
                Some(text) => {
                    let stance = match nonblank(lookup(es, "stance"@)) {
                        Some(st) => st,
                        None => stance_of(agent),
                    };
                    Ok(TurnV { agent, stance, text })
                },
            }
        },
    }
}

/// Reads one participant's statement out of a provider reply (see `reply_turn`).
pub fn meeting_turn_from_reply(
    reply: Option<JsonObject>,
    participants: &Vec<String>,
    current_agent_id: &str,
) -> (r: Result<MeetingTurnDraft, String>)
    ensures
        r matches Ok(t) ==> reply_turn(reply, views(participants@), current_agent_id@) == Ok::<
            TurnV,
            Seq<char>,
        >(t@),
        r matches Err(e) ==> reply_turn(reply, views(participants@), current_agent_id@) == Err::<
            TurnV,
            Seq<char>,
        >(e@),
{
    let o = match reply {
        Some(o) => o,
        None => {
            return Err(String::from_str("meeting turn generation failed: provider returned no JSON"));
        },
    };
    let agent_id = match nonblank_of(lookup_field(&o, "agent_id")) {
        Some(a) => match normalize_meeting_participant_id(a.as_str(), participants) {
            Some(p) => p,
            None => String::from_str(current_agent_id),
        },
        None => String::from_str(current_agent_id),
    };
    let text = match nonblank_of(text_field_of(&o)) {
        Some(t) => t,
        None => {
            return Err(String::from_str("meeting turn generation failed: provider JSON missing text"));
        },
    };
    let stance = match nonblank_of(lookup_field(&o, "stance")) {
        Some(st) => st,
        None => inferred_stance(agent_id.as_str()),
    };
    Ok(MeetingTurnDraft { agent_id, stance, text })
}

/// The opinion letter and the raw responsibility anchor a provider reply gives.
pub open spec fn reply_resolution(reply: Option<JsonObject>) -> Result<(Seq<char>, Seq<char>), Seq<char>> {
    match reply {
        None => Err("meeting resolution generation failed: provider returned no JSON"@),
        Some(o) => match nonblank(lookup(o.entries@, "resolution_md"@)) {
            None => Err("meeting resolution generation failed: provider JSON missing resolution_md"@),
            Some(res) => match nonblank(lookup(o.entries@, "responsibility_anchor"@)) {
                None => Err("meeting resolution generation failed: provider JSON missing responsibility_anchor"@),
                Some(anchor) => Ok((res, anchor)),
            },
        },
    }
}

/// Reads the opinion letter and the named anchor out of a provider reply.
pub fn meeting_resolution_from_reply(reply: Option<JsonObject>) -> (r: Result<(String, String), String>)
    ensures
        r matches Ok(p) ==> reply_resolution(reply) == Ok::<(Seq<char>, Seq<char>), Seq<char>>((p.0@, p.1@)),
        r matches Err(e) ==> reply_resolution(reply) == Err::<(Seq<char>, Seq<char>), Seq<char>>(e@),
{
    let o = match reply {
        Some(o) => o,
        None => {
            return Err(String::from_str("meeting resolution generation failed: provider returned no JSON"));
        },
    };
    let resolution_md = match nonblank_of(lookup_field(&o, "resolution_md")) {
        Some(r) => r,
        None => {
            return Err(String::from_str("meeting resolution generation failed: provider JSON missing resolution_md"));
        },
    };
    let anchor = match nonblank_of(lookup_field(&o, "responsibility_anchor")) {
        Some(a) => a,
        None => {
            return Err(String::from_str("meeting resolution generation failed: provider JSON missing responsibility_anchor"));
        },
    };
    Ok((resolution_md, anchor))
}

/// The participant who answers for a meeting: the one the provider named, else the one the
/// transcript implies; an error naming the provider's choice when neither is a participant.
pub open spec fn settled_anchor(raw: Seq<char>, ts: Seq<TurnV>, ps: Seq<Seq<char>>) -> Result<
    Seq<char>,
    Seq<char>,
> {
    match normalized_participant(trim_seq(raw), ps) {
        Some(p) => Ok(p),
        None => match inferred_anchor(ts, ps) {
            Some(a) => Ok(a),
            None => Err(
                "meeting resolution generation failed: responsibility_anchor "@ + raw
                    + " is not a meeting participant"@,
            ),
        },
    }
}

pub fn settle_responsibility_anchor(
    raw: &str,
    transcript: &Vec<MeetingTurnDraft>,
    participants: &Vec<String>,
) -> (r: Result<String, String>)
    ensures
        r matches Ok(a) ==> settled_anchor(raw@, turn_views(transcript@), views(participants@))
            == Ok::<Seq<char>, Seq<char>>(a@),
        r matches Err(e) ==> settled_anchor(raw@, turn_views(transcript@), views(participants@))
            == Err::<Seq<char>, Seq<char>>(e@),
{
    let trimmed = trim(raw);
    proof {
        crate::text::lemma_trim_idempotent(raw@);
    }
    match normalize_meeting_participant_id(trimmed.as_str(), participants) {
        Some(p) => Ok(p),
        None => match infer_meeting_responsibility_anchor(transcript, participants) {
            Some(a) => Ok(a),
            None => {
                let msg = String::from_str(
                    "meeting resolution generation failed: responsibility_anchor ",
                ).concat(raw).concat(" is not a meeting participant");
                Err(msg)
            },
        },
    }
}


/// The participant settled on to answer for a meeting is always one of its participants.
pub proof fn lemma_settled_anchor_is_participant(raw: Seq<char>, ts: Seq<TurnV>, ps: Seq<Seq<char>>)
    ensures
        settled_anchor(raw, ts, ps) matches Ok(a) ==> ps.contains(a),
{
    lemma_normalized_is_participant(trim_seq(raw), ps);
}

/// A drafted meeting is a debate: it has turns, every participant spoke, a scrutiny role
/// opposed, the resolution is not blank, and the anchor is a participant.
pub proof fn lemma_draft_is_debate(reply: MeetingReply, ps: Seq<Seq<char>>)
    ensures
        meeting_draft_of(reply, ps) matches Some(d) ==> {
            &&& d.0.len() > 0
            &&& every_participant_speaks(d.0, ps)
            &&& scrutiny_opposes(d.0)
            &&& d.1.len() > 0
            &&& ps.contains(d.2)
        },
{
    if let Some(raw) = text_of(anchor_field(reply.fields.entries@)) {
        lemma_normalized_is_participant(trim_seq(raw), ps);
    }
}


/// `first_index_of` finds the first occurrence: the character is there, and none comes before
/// it; `None` means it occurs nowhere.
pub proof fn lemma_first_index_is_first(s: Seq<char>, c: char)
    ensures
        match first_index_of(s, c) {
            Some(k) => 0 <= k < s.len() && s[k] == c && forall|j: int| 0 <= j < k ==> s[j] != c,
            None => forall|j: int| 0 <= j < s.len() ==> s[j] != c,
        },
    decreases s.len(),
{
    if s.len() > 0 {
        let p = s.drop_last();
        lemma_first_index_is_first(p, c);
        match first_index_of(p, c) {
            Some(k) => {
                assert forall|j: int| 0 <= j < k implies s[j] != c by {
                    assert(s[j] == p[j]);
                }
                assert(s[k] == p[k]);
            },
            None => {
                assert forall|j: int| 0 <= j < s.len() - 1 implies s[j] != c by {
                    assert(s[j] == p[j]);
                }
                assert(s[s.len() - 1] == s.last());
            },
        }
    }
}

/// One text transcript line as the rule reads it: a blank line is skipped; a non-blank line
/// without `:` rejects the transcript; otherwise it is split at its first `:`, the trimmed
/// speaker is normalized to a participant, and the line is a turn of that participant, with the
/// participant's default stance and the trimmed statement, when the speaker normalizes and the
/// statement is not blank.
pub open spec fn line_by_normalization(line: Seq<char>, ps: Seq<Seq<char>>) -> LineOutcome {
    let t = trim_seq(line);
    if t.len() == 0 {
        LineOutcome::Skip
    } else {
        match first_index_of(t, ':') {
            None => LineOutcome::Abort,
            Some(k) => {
                let text = trim_seq(t.subrange(k + 1, t.len() as int));
                match normalized_participant(trim_seq(t.subrange(0, k)), ps) {
                    Some(id) => if text.len() > 0 {
                        LineOutcome::Turn(TurnV { agent: id, stance: stance_of(id), text })
                    } else {
                        LineOutcome::Skip
                    },
                    None => LineOutcome::Skip,
                }
            },
        }
    }
}

/// Each text transcript line contributes what the normalization rule says.
pub proof fn lemma_line_by_normalization(line: Seq<char>, ps: Seq<Seq<char>>)
    ensures
        line_outcome(line, ps) == line_by_normalization(line, ps),
{
    let t = trim_seq(line);
    if t.len() > 0 {
        if let Some(k) = first_index_of(t, ':') {
            let a = trim_seq(t.subrange(0, k));
            lemma_normalized_is_participant(a, ps);
            lemma_normalized_nonempty(a, ps);
            lemma_trim_idempotent(t.subrange(0, k));
        }
    }
}

/// The turns of transcript lines, each read by `line_by_normalization`.
pub open spec fn lines_by_normalization(lines: Seq<Seq<char>>, ps: Seq<Seq<char>>) -> Option<
    Seq<TurnV>,
>
    decreases lines.len(),
{
    if lines.len() == 0 {
        Some(Seq::empty())
    } else {
        match lines_by_normalization(lines.drop_last(), ps) {
            None => None,
            Some(prev) => match line_by_normalization(lines.last(), ps) {
                LineOutcome::Skip => Some(prev),
                LineOutcome::Abort => None,
                LineOutcome::Turn(t) => Some(prev.push(t)),
            },
        }
    }
}

proof fn lemma_lines_by_normalization(lines: Seq<Seq<char>>, ps: Seq<Seq<char>>)
    ensures
        lines_turns(lines, ps) == lines_by_normalization(lines, ps),
    decreases lines.len(),
{
    if lines.len() > 0 {
        lemma_lines_by_normalization(lines.drop_last(), ps);
        lemma_line_by_normalization(lines.last(), ps);
    }
}

/// A text transcript, as the rule reads it: nothing when it is blank; otherwise its lines
/// (the pieces between newlines of the trimmed text) in order, each read by
/// `line_by_normalization`; nothing when a line rejects it or no turn is left.
pub open spec fn text_transcript_by_normalization(s: Seq<char>, ps: Seq<Seq<char>>) -> Option<
    Seq<TurnV>,
> {
    let body = trim_seq(s);
    if body.len() == 0 {
        None
    } else {
        match lines_by_normalization(split_on(body, '\n'), ps) {
            None => None,
            Some(ts) => if ts.len() == 0 {
                None
            } else {
                Some(ts)
            },
        }
    }
}

/// A text transcript is read line by line as the normalization rule says.
pub proof fn lemma_text_transcript_by_normalization(text: String, ps: Seq<Seq<char>>)
    ensures
        transcript_turns(TranscriptValue::Text(text), ps) == text_transcript_by_normalization(
            text@,
            ps,
        ),
{
    let body = trim_seq(text@);
    if body.len() > 0 {
        lemma_lines_by_normalization(split_on(body, '\n'), ps);
    }
}


/// `lookup` gives the value of the first entry with the key, and `None` exactly when no entry
/// has it.
pub proof fn lemma_lookup_first_entry(es: Seq<(String, JsonField)>, key: Seq<char>)
    ensures
        lookup(es, key) is None <==> forall|i: int| 0 <= i < es.len() ==> (#[trigger] es[i]).0@ != key,
        lookup(es, key) is Some ==> exists|i: int|
            0 <= i < es.len() && (#[trigger] es[i]).0@ == key && (forall|j: int| 0 <= j < i ==> (#[trigger] es[j]).0@ != key)
                && lookup(es, key) == Some(
                match es[i].1 {
                    JsonField::Text(s) => Some(s@),
                    JsonField::NonText => None,
                },
            ),
    decreases es.len(),
{
    if es.len() > 0 {
        let rest = es.drop_first();
        lemma_lookup_first_entry(rest, key);
        if es[0].0@ == key {
            assert(forall|j: int| 0 <= j < 0 ==> (#[trigger] es[j]).0@ != key);
        } else {
            assert forall|i: int| 0 <= i < rest.len() implies (#[trigger] rest[i]) == es[i + 1] by {}
            if lookup(rest, key) is Some {
                let i = choose|i: int|
                    0 <= i < rest.len() && (#[trigger] rest[i]).0@ == key && (forall|j: int| 0 <= j < i ==> (#[trigger] rest[j]).0@ != key)
                        && lookup(rest, key) == Some(
                        match rest[i].1 {
                            JsonField::Text(s) => Some(s@),
                            JsonField::NonText => None,
                        },
                    );
                assert(es[i + 1] == rest[i]);
                assert forall|j: int| 0 <= j < i + 1 implies (#[trigger] es[j]).0@ != key by {
                    if j > 0 {
                        assert(es[j] == rest[j - 1]);
                    }
                }
            } else {
                assert forall|i: int| 0 <= i < es.len() implies (#[trigger] es[i]).0@ != key by {
                    if i > 0 {
                        assert(es[i] == rest[i - 1]);
                    }
                }
            }
        }
    }
}

/// The speaker key `agent_id` comes first: when an object has it, the object's speaker is its
/// value, whatever `agent`, `speaker`, `role`, `participant` or `name` hold. Likewise `text`
/// comes first for the statement, `resolution_md` for the opinion letter, and
/// `responsibility_anchor` for the anchor.
pub proof fn lemma_field_precedence(es: Seq<(String, JsonField)>)
    ensures
        lookup(es, "agent_id"@) is Some ==> agent_field(es) == lookup(es, "agent_id"@),
        lookup(es, "text"@) is Some ==> text_field(es) == lookup(es, "text"@),
        lookup(es, "resolution_md"@) is Some ==> resolution_field(es) == lookup(es, "resolution_md"@),
        lookup(es, "responsibility_anchor"@) is Some ==> anchor_field(es) == lookup(
            es,
            "responsibility_anchor"@,
        ),
{
}

/// A transcript object whose `agent_id` is a non-blank string is read with that speaker
/// (normalized to a participant when it names one).
pub proof fn lemma_item_speaker_from_agent_id(es: Seq<(String, JsonField)>, ps: Seq<Seq<char>>, a: Seq<char>)
    requires
        lookup(es, "agent_id"@) == Some(Some(a)),
        trim_seq(a).len() > 0,
    ensures
        agent_field(es) == Some(Some(a)),
        item_turn(es, ps) matches Some(t) ==> t.agent == (match normalized_participant(trim_seq(a), ps) {
            Some(p) => p,
            None => trim_seq(a),
        }),
{
}

/// A transcript object with a non-blank `agent_id` and a non-blank `text` is a turn: of the
/// participant the speaker names (else the speaker as written), with its trimmed statement.
pub proof fn lemma_item_with_agent_id_and_text_is_turn(
    es: Seq<(String, JsonField)>,
    ps: Seq<Seq<char>>,
    a: Seq<char>,
    x: Seq<char>,
)
    requires
        lookup(es, "agent_id"@) == Some(Some(a)),
        trim_seq(a).len() > 0,
        lookup(es, "text"@) == Some(Some(x)),
        trim_seq(x).len() > 0,
    ensures
        item_turn(es, ps) matches Some(t) && t.agent == (match normalized_participant(trim_seq(a), ps) {
            Some(p) => p,
            None => trim_seq(a),
        }) && t.text == trim_seq(x),
{
    let agent = speaker_id(trim_seq(a), ps);
    lemma_normalized_nonempty(trim_seq(a), ps);
    lemma_stance_is_oppose_or_support(agent);
    reveal_strlit("oppose");
    reveal_strlit("support");
}

} // verus!
