//! Recognition of character and location tags in scene text.
//!
//! A tag is a sigil, `@` for a character and `#` for a location, directly
//! followed by a token: the longest run of ASCII letters, digits and
//! underscores that starts there. The token is the name the tag mentions.

use vstd::prelude::*;
use crate::tag_set::TagSet;
use crate::trusted::push_char;

verus! {

/// The sigil that introduces a character tag.
pub const CHARACTER_SIGIL: char = '@';

/// The sigil that introduces a location tag.
pub const LOCATION_SIGIL: char = '#';

/// Whether `c` may occur in a token.
pub open spec fn is_token_char(c: char) -> bool {
    ('a' <= c && c <= 'z') || ('A' <= c && c <= 'Z') || ('0' <= c && c <= '9') || c == '_'
}

/// The end (exclusive) of the longest run of token characters of `text` that
/// starts at `start`; `start` itself where no token character stands there.
pub open spec fn run_end(text: Seq<char>, start: int) -> int
    decreases text.len() - start,
{
    if 0 <= start < text.len() && is_token_char(text[start]) {
        run_end(text, start + 1)
    } else {
        start
    }
}

/// A tag begins at position `i`: the sigil stands there and a token
/// character follows it.
pub open spec fn tag_at(text: Seq<char>, sigil: char, i: int) -> bool {
    0 <= i && i + 1 < text.len() && text[i] == sigil && is_token_char(text[i + 1])
}

/// The token of the tag whose sigil stands at position `i`.
pub open spec fn token_at(text: Seq<char>, i: int) -> Seq<char> {
    text.subrange(i + 1, run_end(text, i + 1))
}

/// The tokens of all tags of `text` whose sigil stands before position `n`.
pub open spec fn tokens_before(text: Seq<char>, sigil: char, n: int) -> Set<Seq<char>> {
    Set::new(|t: Seq<char>| exists|i: int| i < n && tag_at(text, sigil, i) && token_at(text, i) == t)
}

/// The names that `text` mentions with `sigil`: the token of every tag in
/// the text, each once however often it is mentioned.
pub open spec fn tagged_tokens(text: Seq<char>, sigil: char) -> Set<Seq<char>> {
    Set::new(|t: Seq<char>| exists|i: int| tag_at(text, sigil, i) && token_at(text, i) == t)
}

/// The character and location names that a text mentions.
#[derive(Clone, Debug)]
pub struct ExtractedEntities {
    pub characters: TagSet,
    pub locations: TagSet,
}

proof fn lemma_run_end_bounds(text: Seq<char>, start: int)
    requires
        0 <= start <= text.len(),
    ensures
        start <= run_end(text, start) <= text.len(),
        forall|k: int| start <= k < run_end(text, start) ==> is_token_char(text[k]),
        run_end(text, start) < text.len() ==> !is_token_char(text[run_end(text, start)]),
    decreases text.len() - start,
{
    if start < text.len() && is_token_char(text[start]) {
        lemma_run_end_bounds(text, start + 1);
    }
}

/// The token of a tag is not empty, consists of token characters only, and
/// cannot be extended: it ends at the end of the text or before a character
/// that no token holds.
pub proof fn lemma_token_shape(text: Seq<char>, sigil: char, i: int)
    requires
        tag_at(text, sigil, i),
    ensures
        token_at(text, i).len() >= 1,
        forall|k: int|
            0 <= k < token_at(text, i).len() ==> is_token_char(#[trigger] token_at(text, i)[k]),
        i + 1 + token_at(text, i).len() == text.len() || !is_token_char(
            text[i + 1 + token_at(text, i).len()],
        ),
{
    lemma_run_end_bounds(text, i + 1);
    lemma_run_end_bounds(text, i + 2);
}

/// What a text mentions depends only on which names its tags hold, not on
/// where the tags stand or how often a name is repeated: two texts whose
/// tags hold the same names mention the same set.
pub proof fn lemma_same_names_same_set(one: Seq<char>, other: Seq<char>, sigil: char)
    requires
        forall|i: int|
            tag_at(one, sigil, i) ==> exists|j: int|
                tag_at(other, sigil, j) && token_at(other, j) == #[trigger] token_at(one, i),
        forall|j: int|
            tag_at(other, sigil, j) ==> exists|i: int|
                tag_at(one, sigil, i) && token_at(one, i) == #[trigger] token_at(other, j),
    ensures
        tagged_tokens(one, sigil) == tagged_tokens(other, sigil),
{
    assert forall|t: Seq<char>| tagged_tokens(one, sigil).contains(t) implies tagged_tokens(
        other,
        sigil,
    ).contains(t) by {
        let i = choose|i: int| tag_at(one, sigil, i) && token_at(one, i) == t;
        let j = choose|j: int| tag_at(other, sigil, j) && token_at(other, j) == token_at(one, i);
        assert(tag_at(other, sigil, j) && token_at(other, j) == t);
    }
    assert forall|t: Seq<char>| tagged_tokens(other, sigil).contains(t) implies tagged_tokens(
        one,
        sigil,
    ).contains(t) by {
        let j = choose|j: int| tag_at(other, sigil, j) && token_at(other, j) == t;
        let i = choose|i: int| tag_at(one, sigil, i) && token_at(one, i) == token_at(other, j);
        assert(tag_at(one, sigil, i) && token_at(one, i) == t);
    }
    assert(tagged_tokens(one, sigil) =~= tagged_tokens(other, sigil));
}

proof fn lemma_run_end_is(text: Seq<char>, start: int, end: int)
    requires
        0 <= start <= end <= text.len(),
        forall|k: int| start <= k < end ==> is_token_char(text[k]),
        end < text.len() ==> !is_token_char(text[end]),
    ensures
        run_end(text, start) == end,
    decreases end - start,
{
    if start < end {
        lemma_run_end_is(text, start + 1, end);
    }
}

proof fn lemma_tokens_before_step(text: Seq<char>, sigil: char, n: int)
    ensures
        tag_at(text, sigil, n) ==> tokens_before(text, sigil, n + 1) == tokens_before(
            text,
            sigil,
            n,
        ).insert(token_at(text, n)),
        !tag_at(text, sigil, n) ==> tokens_before(text, sigil, n + 1) == tokens_before(
            text,
            sigil,
            n,
        ),
{
    let small = tokens_before(text, sigil, n);
    let large = tokens_before(text, sigil, n + 1);
    assert forall|t: Seq<char>| small.contains(t) implies large.contains(t) by {
        let i = choose|i: int| i < n && tag_at(text, sigil, i) && token_at(text, i) == t;
        assert(i < n + 1 && tag_at(text, sigil, i) && token_at(text, i) == t);
    }
    if tag_at(text, sigil, n) {
        let added = small.insert(token_at(text, n));
        assert(n < n + 1 && tag_at(text, sigil, n));
        assert forall|t: Seq<char>| large.contains(t) implies added.contains(t) by {
            let i = choose|i: int| i < n + 1 && tag_at(text, sigil, i) && token_at(text, i) == t;
            if i < n {
                assert(small.contains(t));
            }
        }
        assert(large =~= added);
    } else {
        assert forall|t: Seq<char>| large.contains(t) implies small.contains(t) by {
            let i = choose|i: int| i < n + 1 && tag_at(text, sigil, i) && token_at(text, i) == t;
            assert(i < n);
        }
        assert(large =~= small);
    }
}

/// No tag begins inside a run of token characters, so the tokens found do
/// not change across it.
proof fn lemma_tokens_before_skip(text: Seq<char>, sigil: char, from: int, to: int)
    requires
        from <= to,
        forall|k: int| from <= k < to ==> !tag_at(text, sigil, k),
    ensures
        tokens_before(text, sigil, to) == tokens_before(text, sigil, from),
    decreases to - from,
{
    if from < to {
        lemma_tokens_before_skip(text, sigil, from, to - 1);
        lemma_tokens_before_step(text, sigil, to - 1);
    }
}

proof fn lemma_tokens_before_all(text: Seq<char>, sigil: char, n: int)
    requires
        n >= text.len() - 1,
    ensures
        tokens_before(text, sigil, n) == tagged_tokens(text, sigil),
{
    assert(tokens_before(text, sigil, n) =~= tagged_tokens(text, sigil));
}

/// Whether `c` may occur in a token.
pub fn token_char(c: char) -> (yes: bool)
    ensures
        yes == is_token_char(c),
{
    (c >= 'a' && c <= 'z') || (c >= 'A' && c <= 'Z') || (c >= '0' && c <= '9') || c == '_'
}

/// The names that `text` mentions with `sigil`.
pub fn collect_tagged(text: &str, sigil: char) -> (found: TagSet)
    requires
        !is_token_char(sigil),
    ensures
        found@ == tagged_tokens(text@, sigil),
{
    let mut found = TagSet::new();
    let mut token = String::new();
    let mut in_token = false;
    let mut after_sigil = false;
    let ghost mut start: int = 0;
    proof {
        assert(tokens_before(text@, sigil, 0) =~= Set::<Seq<char>>::empty());
    }
    for c in it: text.chars()
        invariant
            it.seq() == text@,
            !is_token_char(sigil),
            !(in_token && after_sigil),
            after_sigil ==> it.index() >= 1 && text@[it.index() - 1] == sigil,
            in_token ==> {
                &&& 1 <= start < it.index()
                &&& text@[start - 1] == sigil
                &&& token@ == text@.subrange(start, it.index() as int)
                &&& forall|k: int| start <= k < it.index() ==> is_token_char(text@[k])
                &&& found@ == tokens_before(text@, sigil, start - 1)
            },
            !in_token ==> found@ == tokens_before(
                text@,
                sigil,
                if after_sigil {
                    it.index() - 1
                } else {
                    it.index() as int
                },
            ),
    {
        let ghost idx = it.index() as int;
        assert(c == text@[idx]);
        let is_token = token_char(c);
        if in_token {
            if is_token {
                push_char(&mut token, c);
                assert(token@ =~= text@.subrange(start, idx + 1));
            } else {
                proof {
                    lemma_run_end_is(text@, start, idx);
                    assert(tag_at(text@, sigil, start - 1));
                    lemma_tokens_before_step(text@, sigil, start - 1);
                    lemma_tokens_before_skip(text@, sigil, start, idx);
                }
                found.insert(token);
                token = String::new();
                in_token = false;
                after_sigil = c == sigil;
                proof {
                    if !after_sigil {
                        lemma_tokens_before_step(text@, sigil, idx);
                    }
                }
            }
        } else if after_sigil && is_token {
            token = String::new();
            push_char(&mut token, c);
            in_token = true;
            after_sigil = false;
            proof {
                start = idx;
                assert(token@ =~= text@.subrange(start, idx + 1));
            }
        } else {
            proof {
                if after_sigil {
                    lemma_tokens_before_step(text@, sigil, idx - 1);
                }
            }
            after_sigil = c == sigil;
            proof {
                if !after_sigil {
                    lemma_tokens_before_step(text@, sigil, idx);
                }
            }
        }
    }
    let ghost len = text@.len() as int;
    if in_token {
        proof {
            lemma_run_end_is(text@, start, len);
            assert(tag_at(text@, sigil, start - 1));
            lemma_tokens_before_step(text@, sigil, start - 1);
            lemma_tokens_before_skip(text@, sigil, start, len);
            lemma_tokens_before_all(text@, sigil, len);
        }
        found.insert(token);
    } else {
        proof {
            if after_sigil {
                lemma_tokens_before_all(text@, sigil, len - 1);
            } else {
                lemma_tokens_before_all(text@, sigil, len);
            }
        }
    }
    found
}

/// The character names (after `@`) and location names (after `#`) that
/// `text` mentions. Names are taken as written: case matters and nothing is
/// trimmed. A text without tags gives two empty sets.
pub fn extract_entities(text: &str) -> (entities: ExtractedEntities)
    ensures
        entities.characters@ == tagged_tokens(text@, CHARACTER_SIGIL),
        entities.locations@ == tagged_tokens(text@, LOCATION_SIGIL),
{
    let characters = collect_tagged(text, CHARACTER_SIGIL);
    let locations = collect_tagged(text, LOCATION_SIGIL);
    ExtractedEntities { characters, locations }
}

/// The outcome of analysing a text: the names it mentions.
#[derive(Clone, Debug)]
pub struct AnalysisResult {
    pub characters: TagSet,
    pub locations: TagSet,
}

/// Analyses a text: the character and location names it mentions.
pub fn analyze_text(text: String) -> (result: AnalysisResult)
    ensures
        result.characters@ == tagged_tokens(text@, CHARACTER_SIGIL),
        result.locations@ == tagged_tokens(text@, LOCATION_SIGIL),
{
    let entities = extract_entities(text.as_str());
    AnalysisResult { characters: entities.characters, locations: entities.locations }
}

} // verus!
