use vstd::prelude::*;

use crate::termination::KillCondition;

verus! {

/// Annotation that lists a pod's critical containers, separated by dots.
pub open spec fn critical_containers_key() -> Seq<char> {
    "podwatcher/critical-containers"@
}

/// Annotation that holds a pod's kill condition.
pub open spec fn condition_key() -> Seq<char> {
    "podwatcher/condition"@
}

/// The value of the first annotation whose key is `key`.
pub open spec fn annotation_value(anns: Seq<(String, String)>, key: Seq<char>) -> Option<String>
    decreases anns.len(),
{
    if anns.len() == 0 {
        None
    } else if anns[0].0@ == key {
        Some(anns[0].1)
    } else {
        annotation_value(anns.subrange(1, anns.len() as int), key)
    }
}

/// Looks up the value of annotation `key`.
pub fn find_annotation(anns: &Vec<(String, String)>, key: &String) -> (r: Option<String>)
    ensures
        r == annotation_value(anns@, key@),
{
    let mut i: usize = 0;
    assert(anns@.subrange(0, anns@.len() as int) =~= anns@);
    while i < anns.len()
        invariant
            i <= anns.len(),
            annotation_value(anns@, key@) == annotation_value(
                anns@.subrange(i as int, anns@.len() as int),
                key@,
            ),
        decreases anns.len() - i,
    {
        let ghost rest = anns@.subrange(i as int, anns@.len() as int);
        assert(rest.subrange(1, rest.len() as int) =~= anns@.subrange(
            i + 1,
            anns@.len() as int,
        ));
        if anns[i].0 == *key {
            return Some(anns[i].1.clone());
        }
        i = i + 1;
    }
    None
}

/// `c` is a white-space character: one with Unicode's White_Space property.
pub open spec fn is_whitespace(c: char) -> bool {
    let u = c as u32;
    ||| 0x9 <= u <= 0xd
    ||| u == 0x20
    ||| u == 0x85
    ||| u == 0xa0
    ||| u == 0x1680
    ||| 0x2000 <= u <= 0x200a
    ||| u == 0x2028
    ||| u == 0x2029
    ||| u == 0x202f
    ||| u == 0x205f
    ||| u == 0x3000
}

/// Whether `c` is a white-space character.
pub fn is_whitespace_char(c: char) -> (r: bool)
    ensures
        r == is_whitespace(c),
{
    let u = c as u32;
    (0x9 <= u && u <= 0xd) || u == 0x20 || u == 0x85 || u == 0xa0 || u == 0x1680 || (0x2000 <= u
        && u <= 0x200a) || u == 0x2028 || u == 0x2029 || u == 0x202f || u == 0x205f || u == 0x3000
}

/// `s` with every white-space character removed.
pub open spec fn strip_whitespace(s: Seq<char>) -> Seq<char>
    decreases s.len(),
{
    if s.len() == 0 {
        s
    } else if is_whitespace(s.last()) {
        strip_whitespace(s.drop_last())
    } else {
        strip_whitespace(s.drop_last()).push(s.last())
    }
}

/// The pieces of `s` between dots, empty pieces included: a text without
/// dots is one piece, and the empty text is one empty piece.
pub open spec fn split_dots(s: Seq<char>) -> Seq<Seq<char>>
    decreases s.len(),
{
    if s.len() == 0 {
        seq![Seq::empty()]
    } else {
        let parts = split_dots(s.drop_last());
        if s.last() == '.' {
            parts.push(Seq::empty())
        } else {
            parts.update(parts.len() - 1, parts.last().push(s.last()))
        }
    }
}

/// The critical container names that an annotation value declares.
pub open spec fn critical_names(value: Seq<char>) -> Seq<Seq<char>> {
    split_dots(strip_whitespace(value))
}

proof fn lemma_split_dots_nonempty(s: Seq<char>)
    ensures
        split_dots(s).len() >= 1,
    decreases s.len(),
{
    if s.len() > 0 {
        lemma_split_dots_nonempty(s.drop_last());
    }
}

/// Reads the critical container names out of an annotation value: white
/// space is dropped and the rest is split at each dot.
pub fn parse_critical_containers(value: &str) -> (r: Vec<String>)
    ensures
        r@.map_values(|t: String| t@) == critical_names(value@),
{
    let n = value.unicode_len();
    let mut tokens: Vec<String> = Vec::new();
    let mut current = String::new();
    let mut i: usize = 0;
    while i < n
        invariant
            n == value@.len(),
            i <= n,
            tokens@.map_values(|t: String| t@).push(current@) == split_dots(
                strip_whitespace(value@.subrange(0, i as int)),
            ),
        decreases n - i,
    {
        let c = value.get_char(i);
        let ghost before = value@.subrange(0, i as int);
        let ghost after = value@.subrange(0, i + 1);
        assert(after.drop_last() =~= before);
        proof {
            lemma_split_dots_nonempty(strip_whitespace(before));
        }
        let ghost sb = strip_whitespace(before);
        let ghost parts = split_dots(sb);
        let ghost old_tokens = tokens@.map_values(|t: String| t@);
        if c == '.' {
            assert(strip_whitespace(after) == sb.push(c));
            assert(sb.push(c).drop_last() =~= sb);
            tokens.push(current);
            current = String::new();
            assert(tokens@.map_values(|t: String| t@) =~= old_tokens.push(parts.last()));
            assert(tokens@.map_values(|t: String| t@).push(current@) =~= split_dots(
                strip_whitespace(after),
            ));
        } else if !is_whitespace_char(c) {
            assert(strip_whitespace(after) == sb.push(c));
            assert(sb.push(c).drop_last() =~= sb);
            let ghost old_current = current@;
            assert(parts == old_tokens.push(old_current));
            assert(split_dots(sb.push(c)) == parts.update(parts.len() - 1, old_current.push(c)));
            let piece = value.substring_char(i, i + 1);
            assert(piece@ =~= seq![c]);
            current.append(piece);
            assert(current@ =~= old_current.push(c));
            assert(tokens@.map_values(|t: String| t@).push(current@) =~= split_dots(
                strip_whitespace(after),
            ));
        } else {
            assert(strip_whitespace(after) == sb);
        }
        i = i + 1;
    }
    assert(value@.subrange(0, n as int) =~= value@);
    tokens.push(current);
    assert(tokens@.map_values(|t: String| t@) =~= critical_names(value@));
    tokens
}

/// What `str::to_lowercase` returns for `s`.
pub uninterp spec fn lower_of(s: Seq<char>) -> Seq<char>;

/// Relies on `str::to_lowercase`: the lowercase form of a text, which depends
/// on its characters alone.
#[verifier::external_body]
fn to_lowercase(s: &str) -> (r: String)
    ensures
        r@ == lower_of(s@),
{
    s.to_lowercase()
}

/// The kill condition named by an already lowercased annotation value:
/// `all` selects `All`; anything else, the empty value included, `Any`.
pub open spec fn condition_from_lowered_spec(lowered: Seq<char>) -> KillCondition {
    if lowered == seq!['a', 'l', 'l'] {
        KillCondition::All
    } else {
        KillCondition::Any
    }
}

/// The kill condition of a pod whose condition annotation is `raw`; a pod
/// without the annotation gets `Any`. Case does not matter.
pub open spec fn condition_of(raw: Option<String>) -> KillCondition {
    match raw {
        None => KillCondition::Any,
        Some(v) => condition_from_lowered_spec(lower_of(v@)),
    }
}

/// Reads a kill condition from an annotation value that is already lowercase.
pub fn condition_from_lowered(lowered: &String) -> (r: KillCondition)
    ensures
        r == condition_from_lowered_spec(lowered@),
{
    let all = String::from_str("all");
    proof {
        reveal_strlit("all");
    }
    assert(all@ =~= seq!['a', 'l', 'l']);
    if *lowered == all {
        KillCondition::All
    } else {
        KillCondition::Any
    }
}

/// Reads a kill condition from the condition annotation, if there is one.
pub fn parse_condition(raw: &Option<String>) -> (r: KillCondition)
    ensures
        r == condition_of(*raw),
{
    match raw {
        None => KillCondition::Any,
        Some(v) => {
            let lowered = to_lowercase(v.as_str());
            condition_from_lowered(&lowered)
        },
    }
}

} // verus!
