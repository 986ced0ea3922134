//! Comma-separated lists of regular expressions searched in a text.
use vstd::prelude::*;

verus! {

/// Whether `pattern` is accepted by the regex crate's compiler.
pub uninterp spec fn pattern_compiles(pattern: Seq<char>) -> bool;

/// Whether the compiled `pattern` matches somewhere in `text`.
pub uninterp spec fn pattern_finds(pattern: Seq<char>, text: Seq<char>) -> bool;

#[verifier::external_type_specification]
#[verifier::external_body]
pub struct ExRegexError(regex::Error);

/// Relies on regex::Regex::new, which accepts or refuses the pattern, and on
/// regex::Regex::is_match, which tells whether it matches anywhere in `text`.
#[verifier::external_body]
fn search(pattern: &str, text: &str) -> (r: Result<bool, regex::Error>)
    ensures
        r is Ok <==> pattern_compiles(pattern@),
        r matches Ok(found) ==> found == pattern_finds(pattern@, text@),
{
    match regex::Regex::new(pattern) {
        Ok(re) => Ok(re.is_match(text)),
        Err(e) => Err(e),
    }
}

/// The pieces of `s` between its commas, in order; a text without a comma
/// is a single piece.
pub open spec fn comma_pieces(s: Seq<char>) -> Seq<Seq<char>>
    decreases s.len(),
{
    if s.len() == 0 {
        seq![Seq::<char>::empty()]
    } else {
        let rest = comma_pieces(s.drop_first());
        if s[0] == ',' {
            seq![Seq::<char>::empty()] + rest
        } else {
            rest.update(0, seq![s[0]] + rest[0])
        }
    }
}

/// The views of a list of strings.
pub open spec fn views_of(v: Seq<String>) -> Seq<Seq<char>> {
    v.map_values(|p: String| p@)
}

/// Relies on str::split with a comma separator: the pieces between the
/// commas, in order.
#[verifier::external_body]
fn split_commas(s: &str) -> (r: Vec<String>)
    ensures
        views_of(r@) == comma_pieces(s@),
{
    s.split(',').map(|p| p.to_string()).collect()
}

/// Result of `patterns` on `text`: `None` where one of the patterns does
/// not compile, whatever the text; else whether one of them finds a match.
pub open spec fn text_verdict(patterns: Seq<Seq<char>>, text: Seq<char>) -> Option<bool>
    decreases patterns.len(),
{
    if patterns.len() == 0 {
        Some(false)
    } else {
        match text_verdict(patterns.drop_last(), text) {
            None => None,
            Some(found) => if !pattern_compiles(patterns.last()) {
                None
            } else {
                Some(found || pattern_finds(patterns.last(), text))
            },
        }
    }
}

/// Once a prefix of the patterns holds one that does not compile, so does
/// every longer prefix.
proof fn lemma_broken_prefix_persists(patterns: Seq<Seq<char>>, text: Seq<char>, n: int)
    requires
        0 <= n <= patterns.len(),
        text_verdict(patterns.take(n), text) is None,
    ensures
        text_verdict(patterns, text) is None,
    decreases patterns.len() - n,
{
    if n < patterns.len() {
        assert(patterns.take(n + 1).drop_last() =~= patterns.take(n));
        lemma_broken_prefix_persists(patterns, text, n + 1);
    } else {
        assert(patterns.take(n) =~= patterns);
    }
}

/// Compiles every comma-separated pattern of `patterns` and tries it on
/// `text`. Fails with the compiler's error at the first pattern that does
/// not compile, even where an earlier one matched.
pub fn any_pattern_finds(patterns: &str, text: &str) -> (r: Result<bool, regex::Error>)
    ensures
        r matches Ok(found) ==> text_verdict(comma_pieces(patterns@), text@) == Some(found),
        r is Err ==> text_verdict(comma_pieces(patterns@), text@) is None,
{
    let pieces = split_commas(patterns);
    let ghost ps = comma_pieces(patterns@);
    let mut found = false;
    let mut i: usize = 0;
    assert(ps.take(0) =~= Seq::<Seq<char>>::empty());
    while i < pieces.len()
        invariant
            0 <= i <= pieces.len(),
            ps == comma_pieces(patterns@),
            views_of(pieces@) == ps,
            text_verdict(ps.take(i as int), text@) == Some(found),
        decreases pieces.len() - i,
    {
        proof {
            assert(ps.len() == pieces@.len());
            assert(ps[i as int] == pieces@[i as int]@);
            assert(ps.take(i + 1).drop_last() =~= ps.take(i as int));
            assert(ps.take(i + 1).last() == ps[i as int]);
        }
        match search(pieces[i].as_str(), text) {
            Err(e) => {
                proof {
                    lemma_broken_prefix_persists(ps, text@, i + 1);
                }
                return Err(e);
            },
            Ok(hit) => {
                found = found || hit;
            },
        }
        i = i + 1;
    }
    proof {
        assert(ps.len() == pieces@.len());
        assert(ps.take(i as int) =~= ps);
    }
    Ok(found)
}

/// Text matching is an OR over the patterns: where every pattern compiles,
/// the text matches exactly when one of the patterns finds a match in it;
/// where one of them does not compile, the result is an error whatever the
/// text.
pub proof fn lemma_text_match_is_any(patterns: Seq<Seq<char>>, text: Seq<char>)
    ensures
        (forall|i: int| 0 <= i < patterns.len() ==> pattern_compiles(#[trigger] patterns[i]))
            ==> text_verdict(patterns, text) == Some(
            exists|i: int| 0 <= i < patterns.len() && pattern_finds(#[trigger] patterns[i], text),
        ),
        (exists|i: int| 0 <= i < patterns.len() && !pattern_compiles(#[trigger] patterns[i]))
            ==> text_verdict(patterns, text) is None,
    decreases patterns.len(),
{
    if patterns.len() > 0 {
        let init = patterns.drop_last();
        let last = patterns.last();
        lemma_text_match_is_any(init, text);
        assert forall|i: int| 0 <= i < init.len() implies init[i] == patterns[i] by {}
        if forall|i: int| 0 <= i < patterns.len() ==> pattern_compiles(#[trigger] patterns[i]) {
            assert(pattern_compiles(patterns[patterns.len() - 1]));
            assert forall|i: int| 0 <= i < init.len() implies pattern_compiles(#[trigger] init[i]) by {
                assert(pattern_compiles(patterns[i]));
            }
            if exists|i: int| 0 <= i < patterns.len() && pattern_finds(#[trigger] patterns[i], text) {
                let i = choose|i: int| 0 <= i < patterns.len() && pattern_finds(#[trigger] patterns[i], text);
                if i < init.len() {
                    assert(pattern_finds(init[i], text));
                }
            }
            if exists|i: int| 0 <= i < init.len() && pattern_finds(#[trigger] init[i], text) {
                let i = choose|i: int| 0 <= i < init.len() && pattern_finds(#[trigger] init[i], text);
                assert(pattern_finds(patterns[i], text));
            }
        }
        if exists|i: int| 0 <= i < patterns.len() && !pattern_compiles(#[trigger] patterns[i]) {
            let i = choose|i: int| 0 <= i < patterns.len() && !pattern_compiles(#[trigger] patterns[i]);
            if i < init.len() {
                assert(!pattern_compiles(init[i]));
            }
        }
    }
}

} // verus!
