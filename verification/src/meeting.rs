//! Meeting debate rules: participant stances, participant id normalization, transcript
//! parsing of provider replies and the choice of a responsibility anchor.
use vstd::prelude::*;

use crate::text::{
    ascii_lower, ascii_lower_char, chars_of, contains, eq_ic, eq_ignore_ascii_case, has_sub,
    same_text, trim, trim_seq, vec_contains_str, views,
};

verus! {

/// What `str::to_lowercase` (full Unicode case mapping) makes of a string.
pub uninterp spec fn unicode_lowercase(s: Seq<char>) -> Seq<char>;

/// Every character of `s` is ASCII.
pub open spec fn all_ascii(s: Seq<char>) -> bool {
    forall|i: int| 0 <= i < s.len() ==> #[trigger] s[i] <= '\x7f'
}

/// `str::to_lowercase`; its result is named, not restated: Unicode case mapping is a table.
/// What is stated is the ASCII case, where the mapping lower-cases each letter and keeps every
/// other character.
#[verifier::external_body]
pub(crate) fn lowercase(s: &str) -> (r: String)
    ensures
        r@ == unicode_lowercase(s@),
        all_ascii(s@) ==> r@ == s@.map_values(|c: char| ascii_lower(c)),
{
    s.to_lowercase()
}

/// The lower-cased id or role names a scrutiny function.
pub open spec fn has_scrutiny_marker(lower: Seq<char>) -> bool {
    ||| has_sub(lower, "critic"@)
    ||| has_sub(lower, "risk"@)
    ||| has_sub(lower, "compliance"@)
    ||| has_sub(lower, "governance"@)
    ||| has_sub(lower, "audit"@)
    ||| has_sub(lower, "legal"@)
}

/// Default debate stance of a participant: scrutiny roles oppose, everyone else supports.
pub open spec fn stance_of(agent_id_or_role: Seq<char>) -> Seq<char> {
    if has_scrutiny_marker(unicode_lowercase(agent_id_or_role)) {
        "oppose"@
    } else {
        "support"@
    }
}

/// The stance that a lower-cased participant id or role implies.
pub fn stance_for_lowercased(lower: &str) -> (r: String)
    ensures
        r@ == (if has_scrutiny_marker(lower@) {
            "oppose"@
        } else {
            "support"@
        }),
{
    if contains(lower, "critic") || contains(lower, "risk") || contains(lower, "compliance")
        || contains(lower, "governance") || contains(lower, "audit") || contains(lower, "legal") {
        String::from_str("oppose")
    } else {
        String::from_str("support")
    }
}

/// A participant's default debate stance, derived from the role its id names.
pub fn inferred_stance(agent_id_or_role: &str) -> (r: String)
    ensures
        r@ == stance_of(agent_id_or_role@),
{
    let lower = lowercase(agent_id_or_role);
    stance_for_lowercased(lower.as_str())
}

pub open spec fn is_ascii_alnum(c: char) -> bool {
    ('0' <= c <= '9') || ('a' <= c <= 'z') || ('A' <= c <= 'Z')
}

/// ASCII letters and digits of `s`, lower-cased, in order.
pub open spec fn alnum_lower(s: Seq<char>) -> Seq<char>
    decreases s.len(),
{
    if s.len() == 0 {
        Seq::empty()
    } else if is_ascii_alnum(s.last()) {
        alnum_lower(s.drop_last()).push(ascii_lower(s.last()))
    } else {
        alnum_lower(s.drop_last())
    }
}

/// The first participant that holds `a` or `b`.
pub open spec fn first_holding(ps: Seq<Seq<char>>, a: Seq<char>, b: Seq<char>) -> Option<
    Seq<char>,
>
    decreases ps.len(),
{
    if ps.len() == 0 {
        None
    } else if has_sub(ps[0], a) || has_sub(ps[0], b) {
        Some(ps[0])
    } else {
        first_holding(ps.drop_first(), a, b)
    }
}

/// The participant that a provider-written name or role label stands for.
pub open spec fn normalized_participant(value: Seq<char>, ps: Seq<Seq<char>>) -> Option<
    Seq<char>,
> {
    let t = trim_seq(value);
    let n = alnum_lower(t);
    if t.len() == 0 {
        None
    } else if ps.contains(t) {
        Some(t)
    } else if n == "founder"@ {
        first_holding(ps, "founder"@, "founder"@)
    } else if n == "productmanager"@ || n == "pm"@ {
        first_holding(ps, "pm"@, "pm"@)
    } else if n == "critic"@ || n == "riskanalyst"@ || n == "risk"@ {
        first_holding(ps, "critic"@, "risk"@)
    } else {
        None
    }
}

fn alnum_lower_of(s: &str) -> (r: Vec<char>)
    ensures
        r@ == alnum_lower(s@),
{
    let c = chars_of(s);
    let n = c.len();
    let mut r: Vec<char> = Vec::new();
    let mut i: usize = 0;
    while i < n
        invariant
            c@ == s@,
            n == c@.len(),
            i <= n,
            r@ == alnum_lower(s@.take(i as int)),
        decreases n - i,
    {
        let ch = c[i];
        assert(s@.take(i + 1).drop_last() =~= s@.take(i as int));
        if ('0' <= ch && ch <= '9') || ('a' <= ch && ch <= 'z') || ('A' <= ch && ch <= 'Z') {
            r.push(ascii_lower_char(ch));
        }
        i = i + 1;
    }
    assert(s@.take(n as int) =~= s@);
    r
}

fn chars_equal(a: &Vec<char>, b: &str) -> (r: bool)
    ensures
        r == (a@ == b@),
{
    let c = chars_of(b);
    if a.len() != c.len() {
        return false;
    }
    let n = a.len();
    let mut i: usize = 0;
    while i < n
        invariant
            c@ == b@,
            n == a@.len(),
            n == c@.len(),
            i <= n,
            forall|k: int| 0 <= k < i ==> a@[k] == c@[k],
        decreases n - i,
    {
        if a[i] != c[i] {
            return false;
        }
        i = i + 1;
    }
    assert(a@ =~= c@);
    true
}

fn first_holding_of(participants: &Vec<String>, a: &str, b: &str) -> (r: Option<String>)
    ensures
        r matches Some(p) ==> first_holding(views(participants@), a@, b@) == Some(p@),
        r is None ==> first_holding(views(participants@), a@, b@) is None,
{
    let ghost ps = views(participants@);
    let n = participants.len();
    let mut i: usize = 0;
    assert(ps.skip(0) =~= ps);
    while i < n
        invariant
            ps == views(participants@),
            n == ps.len(),
            i <= n,
            first_holding(ps, a@, b@) == first_holding(ps.skip(i as int), a@, b@),
        decreases n - i,
    {
        let p = participants[i].as_str();
        assert(ps.skip(i as int)[0] == p@);
        if contains(p, a) || contains(p, b) {
            return Some(participants[i].clone());
        }
        assert(ps.skip(i as int).drop_first() =~= ps.skip(i + 1));
        i = i + 1;
    }
    None
}

/// Maps a provider-written participant name or role label ("Founder", "Product Manager",
/// "Risk Analyst", ...) to the id of a meeting participant.
pub fn normalize_meeting_participant_id(value: &str, participants: &Vec<String>) -> (r: Option<
    String,
>)
    ensures
        r matches Some(p) ==> normalized_participant(value@, views(participants@)) == Some(p@),
        r is None ==> normalized_participant(value@, views(participants@)) is None,
{
    let trimmed = trim(value);
    let t = trimmed.as_str();
    if t.unicode_len() == 0 {
        return None;
    }
    if vec_contains_str(participants, t) {
        return Some(String::from_str(t));
    }
    let normalized = alnum_lower_of(t);
    if chars_equal(&normalized, "founder") {
        first_holding_of(participants, "founder", "founder")
    } else if chars_equal(&normalized, "productmanager") || chars_equal(&normalized, "pm") {
        first_holding_of(participants, "pm", "pm")
    } else if chars_equal(&normalized, "critic") || chars_equal(&normalized, "riskanalyst")
        || chars_equal(&normalized, "risk") {
        first_holding_of(participants, "critic", "risk")
    } else {
        None
    }
}


/// One participant's statement in a meeting transcript.
pub struct MeetingTurnDraft {
    pub agent_id: String,
    pub stance: String,
    pub text: String,
}

/// A turn as three character sequences.
pub struct TurnV {
    pub agent: Seq<char>,
    pub stance: Seq<char>,
    pub text: Seq<char>,
}

impl View for MeetingTurnDraft {
    type V = TurnV;

    open spec fn view(&self) -> TurnV {
        TurnV { agent: self.agent_id@, stance: self.stance@, text: self.text@ }
    }
}

pub open spec fn turn_views(ts: Seq<MeetingTurnDraft>) -> Seq<TurnV> {
    ts.map_values(|t: MeetingTurnDraft| t@)
}

/// A complete meeting outcome: the transcript, the opinion letter, and the participant who
/// answers for the resolution.
pub struct MeetingDraft {
    pub transcript: Vec<MeetingTurnDraft>,
    pub resolution_md: String,
    pub responsibility_anchor: String,
}

/// The first turn whose stance is "support" (ASCII case ignored).
pub open spec fn first_supporter(ts: Seq<TurnV>) -> Option<Seq<char>>
    decreases ts.len(),
{
    if ts.len() == 0 {
        None
    } else if eq_ic(ts[0].stance, "support"@) {
        Some(ts[0].agent)
    } else {
        first_supporter(ts.drop_first())
    }
}

/// The participant answerable for a meeting when the provider named none: the first supporter,
/// else the first speaker, provided that speaker is a participant.
pub open spec fn inferred_anchor(ts: Seq<TurnV>, ps: Seq<Seq<char>>) -> Option<Seq<char>> {
    let candidate = match first_supporter(ts) {
        Some(a) => Some(a),
        None => if ts.len() > 0 {
            Some(ts[0].agent)
        } else {
            None
        },
    };
    match candidate {
        Some(a) => if ps.contains(a) {
            Some(a)
        } else {
            None
        },
        None => None,
    }
}

pub fn infer_meeting_responsibility_anchor(
    transcript: &Vec<MeetingTurnDraft>,
    participants: &Vec<String>,
) -> (r: Option<String>)
    ensures
        r matches Some(a) ==> inferred_anchor(turn_views(transcript@), views(participants@))
            == Some(a@),
        r is None ==> inferred_anchor(turn_views(transcript@), views(participants@)) is None,
{
    let ghost ts = turn_views(transcript@);
    let n = transcript.len();
    let mut i: usize = 0;
    let mut found: Option<usize> = None;
    assert(ts.skip(0) =~= ts);
    while i < n
        invariant_except_break
            found is None,
        invariant
            ts == turn_views(transcript@),
            n == ts.len(),
            i <= n,
            found is None ==> first_supporter(ts) == first_supporter(ts.skip(i as int)),
            found matches Some(k) ==> k < n && first_supporter(ts) == Some(ts[k as int].agent),
        ensures
            found is None ==> first_supporter(ts) is None,
        decreases n - i,
    {
        assert(ts.skip(i as int)[0] == ts[i as int]);
        assert(ts[i as int] == transcript@[i as int]@);
        if eq_ignore_ascii_case(transcript[i].stance.as_str(), "support") {
            assert(first_supporter(ts.skip(i as int)) == Some(ts[i as int].agent));
            found = Some(i);
            break;
        }
        assert(ts.skip(i as int).drop_first() =~= ts.skip(i + 1));
        i = i + 1;
    }
    let candidate: Option<usize> = match found {
        Some(k) => Some(k),
        None => if n > 0 {
            Some(0)
        } else {
            None
        },
    };
    match candidate {
        Some(k) => {
            assert(ts[k as int] == transcript@[k as int]@);
            let agent = transcript[k].agent_id.as_str();
            if vec_contains_str(participants, agent) {
                Some(String::from_str(agent))
            } else {
                None
            }
        },
        None => None,
    }
}


proof fn lemma_first_holding_is_participant(ps: Seq<Seq<char>>, a: Seq<char>, b: Seq<char>)
    ensures
        first_holding(ps, a, b) matches Some(p) ==> ps.contains(p),
    decreases ps.len(),
{
    if ps.len() > 0 && !(has_sub(ps[0], a) || has_sub(ps[0], b)) {
        lemma_first_holding_is_participant(ps.drop_first(), a, b);
        if first_holding(ps, a, b) is Some {
            let p = first_holding(ps, a, b)->Some_0;
            let k = choose|k: int| 0 <= k < ps.drop_first().len() && ps.drop_first()[k] == p;
            assert(ps[k + 1] == p);
        }
    } else if ps.len() > 0 {
        assert(ps[0] == ps[0]);
    }
}

/// Whatever name or role label a provider writes, normalization only ever yields one of the
/// meeting's participants.
pub proof fn lemma_normalized_is_participant(value: Seq<char>, ps: Seq<Seq<char>>)
    ensures
        normalized_participant(value, ps) matches Some(p) ==> ps.contains(p),
{
    lemma_first_holding_is_participant(ps, "founder"@, "founder"@);
    lemma_first_holding_is_participant(ps, "pm"@, "pm"@);
    lemma_first_holding_is_participant(ps, "critic"@, "risk"@);
}

/// A participant's own id (with no surrounding whitespace) stands for that participant.
pub proof fn lemma_participant_id_fixed(p: Seq<char>, ps: Seq<Seq<char>>)
    requires
        ps.contains(p),
        p.len() > 0,
        trim_seq(p) == p,
    ensures
        normalized_participant(p, ps) == Some(p),
{
}

/// The inferred anchor, when there is one, is a participant.
pub proof fn lemma_inferred_anchor_is_participant(ts: Seq<TurnV>, ps: Seq<Seq<char>>)
    ensures
        inferred_anchor(ts, ps) matches Some(a) ==> ps.contains(a),
{
}

/// A participant's default stance is either `oppose` or `support`, and it is `oppose` exactly
/// for the scrutiny roles.
pub proof fn lemma_stance_is_oppose_or_support(agent_id_or_role: Seq<char>)
    ensures
        stance_of(agent_id_or_role) == "oppose"@ || stance_of(agent_id_or_role) == "support"@,
        stance_of(agent_id_or_role) == "oppose"@ <==> has_scrutiny_marker(
            unicode_lowercase(agent_id_or_role),
        ),
{
    reveal_strlit("oppose");
    reveal_strlit("support");
    assert("oppose"@ != "support"@) by {
        assert("oppose"@[0] != "support"@[0]);
    }
}


proof fn lemma_first_holding_nonempty(ps: Seq<Seq<char>>, a: Seq<char>, b: Seq<char>)
    requires
        a.len() > 0,
        b.len() > 0,
    ensures
        first_holding(ps, a, b) matches Some(p) ==> p.len() > 0,
    decreases ps.len(),
{
    if ps.len() > 0 {
        if has_sub(ps[0], a) {
            let i = choose|i: int| 0 <= i && i + a.len() <= ps[0].len() && #[trigger] ps[0].subrange(i, i + a.len()) == a;
        } else if has_sub(ps[0], b) {
            let i = choose|i: int| 0 <= i && i + b.len() <= ps[0].len() && #[trigger] ps[0].subrange(i, i + b.len()) == b;
        } else {
            lemma_first_holding_nonempty(ps.drop_first(), a, b);
        }
    }
}

/// The participant a name stands for is never the empty id.
pub proof fn lemma_normalized_nonempty(value: Seq<char>, ps: Seq<Seq<char>>)
    ensures
        normalized_participant(value, ps) matches Some(p) ==> p.len() > 0,
{
    reveal_strlit("founder");
    reveal_strlit("pm");
    reveal_strlit("critic");
    reveal_strlit("risk");
    lemma_first_holding_nonempty(ps, "founder"@, "founder"@);
    lemma_first_holding_nonempty(ps, "pm"@, "pm"@);
    lemma_first_holding_nonempty(ps, "critic"@, "risk"@);
}


proof fn lemma_first_holding_is_first(ps: Seq<Seq<char>>, a: Seq<char>, b: Seq<char>)
    ensures
        first_holding(ps, a, b) is None <==> forall|i: int| 0 <= i < ps.len() ==> !(has_sub(#[trigger] ps[i], a) || has_sub(ps[i], b)),
        first_holding(ps, a, b) is Some ==> exists|i: int|
            0 <= i < ps.len() && first_holding(ps, a, b) == Some(ps[i]) && (has_sub(#[trigger] ps[i], a)
                || has_sub(ps[i], b)) && forall|j: int| 0 <= j < i ==> !(has_sub(#[trigger] ps[j], a) || has_sub(ps[j], b)),
    decreases ps.len(),
{
    if ps.len() > 0 {
        let rest = ps.drop_first();
        lemma_first_holding_is_first(rest, a, b);
        if has_sub(ps[0], a) || has_sub(ps[0], b) {
            assert(first_holding(ps, a, b) == Some(ps[0]));
        } else {
            if first_holding(rest, a, b) is Some {
                let i = choose|i: int|
                    0 <= i < rest.len() && first_holding(rest, a, b) == Some(rest[i]) && (has_sub(#[trigger] rest[i], a)
                        || has_sub(rest[i], b)) && forall|j: int| 0 <= j < i ==> !(has_sub(#[trigger] rest[j], a) || has_sub(rest[j], b));
                assert(ps[i + 1] == rest[i]);
                assert forall|j: int| 0 <= j < i + 1 implies !(has_sub(#[trigger] ps[j], a) || has_sub(ps[j], b)) by {
                    if j > 0 {
                        assert(ps[j] == rest[j - 1]);
                    }
                }
            } else {
                assert forall|i: int| 0 <= i < ps.len() implies !(has_sub(#[trigger] ps[i], a) || has_sub(ps[i], b)) by {
                    if i > 0 {
                        assert(ps[i] == rest[i - 1]);
                    }
                }
            }
        }
    }
}

/// A role label that is not itself a participant id stands for the first participant whose id
/// holds the role's marker: `founder` for Founder; `pm` for Product Manager and PM; `critic`
/// or `risk` for Critic, Risk Analyst and Risk (letters and digits only, case ignored). When
/// no participant holds the marker, the label stands for no one.
pub proof fn lemma_role_labels_name_first_holder(value: Seq<char>, ps: Seq<Seq<char>>)
    requires
        !ps.contains(trim_seq(value)),
    ensures
        ({
            let n = alnum_lower(trim_seq(value));
            let (a, b) = if n == "founder"@ {
                ("founder"@, "founder"@)
            } else if n == "productmanager"@ || n == "pm"@ {
                ("pm"@, "pm"@)
            } else {
                ("critic"@, "risk"@)
            };
            (n == "founder"@ || n == "productmanager"@ || n == "pm"@ || n == "critic"@ || n
                == "riskanalyst"@ || n == "risk"@) ==> {
                &&& (normalized_participant(value, ps) is None <==> forall|i: int|
                    0 <= i < ps.len() ==> !(has_sub(#[trigger] ps[i], a) || has_sub(ps[i], b)))
                &&& (normalized_participant(value, ps) is Some ==> exists|i: int|
                    0 <= i < ps.len() && normalized_participant(value, ps) == Some(ps[i])
                        && (has_sub(#[trigger] ps[i], a) || has_sub(ps[i], b)) && forall|j: int|
                        0 <= j < i ==> !(has_sub(#[trigger] ps[j], a) || has_sub(ps[j], b)))
            }
        }),
{
    let t = trim_seq(value);
    let n = alnum_lower(t);
    if t.len() == 0 {
        assert(n =~= Seq::<char>::empty());
        reveal_strlit("founder");
        reveal_strlit("productmanager");
        reveal_strlit("pm");
        reveal_strlit("critic");
        reveal_strlit("riskanalyst");
        reveal_strlit("risk");
    }
    lemma_first_holding_is_first(ps, "founder"@, "founder"@);
    lemma_first_holding_is_first(ps, "pm"@, "pm"@);
    lemma_first_holding_is_first(ps, "critic"@, "risk"@);
}

/// Critic, Risk Analyst and Risk stand for a participant whose id holds `risk` even when no id
/// holds `critic`: with a first `risk` holder and no earlier `critic` or `risk` holder, that is
/// the participant.
pub proof fn lemma_risk_label_finds_risk_holder(value: Seq<char>, ps: Seq<Seq<char>>, i: int)
    requires
        !ps.contains(trim_seq(value)),
        alnum_lower(trim_seq(value)) == "critic"@ || alnum_lower(trim_seq(value)) == "riskanalyst"@
            || alnum_lower(trim_seq(value)) == "risk"@,
        0 <= i < ps.len(),
        has_sub(ps[i], "risk"@),
        forall|j: int| 0 <= j < i ==> !(has_sub(#[trigger] ps[j], "critic"@) || has_sub(ps[j], "risk"@)),
    ensures
        normalized_participant(value, ps) == Some(ps[i]),
{
    lemma_role_labels_name_first_holder(value, ps);
    reveal_strlit("founder");
    reveal_strlit("productmanager");
    reveal_strlit("pm");
    reveal_strlit("critic");
    reveal_strlit("riskanalyst");
    reveal_strlit("risk");
    let n = alnum_lower(trim_seq(value));
    assert(n != "founder"@ && n != "productmanager"@ && n != "pm"@) by {
        if n == "critic"@ {
            assert(n[0] != "founder"@[0] && n.len() != "productmanager"@.len() && n.len() != "pm"@.len());
        } else if n == "riskanalyst"@ {
            assert(n[0] != "founder"@[0] && n.len() != "productmanager"@.len() && n.len() != "pm"@.len());
        } else {
            assert(n[0] != "founder"@[0] && n.len() != "productmanager"@.len() && n.len() != "pm"@.len());
        }
    }
    let k = choose|k: int|
        0 <= k < ps.len() && normalized_participant(value, ps) == Some(ps[k]) && (has_sub(#[trigger] ps[k], "critic"@)
            || has_sub(ps[k], "risk"@)) && forall|j: int| 0 <= j < k ==> !(has_sub(#[trigger] ps[j], "critic"@) || has_sub(ps[j], "risk"@));
    if k < i {
    } else if k > i {
        assert(!(has_sub(ps[i], "critic"@) || has_sub(ps[i], "risk"@)));
    }
}


/// A participant whose lower-cased id or role holds `critic`, `risk`, `compliance`,
/// `governance`, `audit` or `legal` opposes by default; any other supports.
pub proof fn lemma_scrutiny_roles_oppose(agent_id_or_role: Seq<char>)
    ensures
        ({
            let lower = unicode_lowercase(agent_id_or_role);
            let scrutiny = has_sub(lower, "critic"@) || has_sub(lower, "risk"@) || has_sub(
                lower,
                "compliance"@,
            ) || has_sub(lower, "governance"@) || has_sub(lower, "audit"@) || has_sub(
                lower,
                "legal"@,
            );
            &&& scrutiny ==> stance_of(agent_id_or_role) == "oppose"@
            &&& !scrutiny ==> stance_of(agent_id_or_role) == "support"@
        }),
{
}

} // verus!
