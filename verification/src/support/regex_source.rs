use vstd::prelude::*;

verus! {

/// Whether `c` is one of the ten decimal digits.
pub open spec fn is_digit(c: char) -> bool {
    '0' <= c <= '9'
}

/// The end of a reference that puts the captured text in lower case.
pub open spec fn downcase_suffix() -> Seq<char> {
    seq![':', '/', 'd', 'o', 'w', 'n', 'c', 'a', 's', 'e', '}']
}

/// The end of a reference that puts the captured text in upper case.
pub open spec fn upcase_suffix() -> Seq<char> {
    seq![':', '/', 'u', 'p', 'c', 'a', 's', 'e', '}']
}

/// Whether `text` reads `word` from position `at` on.
pub open spec fn reads_at(text: Seq<char>, at: int, word: Seq<char>) -> bool {
    &&& 0 <= at
    &&& at + word.len() <= text.len()
    &&& forall|k: int| 0 <= k < word.len() ==> text[at + k] == word[k]
}

/// Whether every position from `from` up to `to` holds a digit.
pub open spec fn all_digits(text: Seq<char>, from: int, to: int) -> bool {
    forall|k: int| from <= k < to ==> is_digit(#[trigger] text[k])
}

/// A reference to a capture group by its number alone begins at `i`: a dollar sign and a
/// digit, as in `$1`.
pub open spec fn numbered_reference_at(text: Seq<char>, i: int) -> bool {
    0 <= i && i + 1 < text.len() && text[i] == '$' && is_digit(text[i + 1])
}

/// A reference to a capture group with a change of case begins at `i` and has its digits end
/// before `j`: as in `${1:/downcase}` or `${1:/upcase}`.
pub open spec fn transformed_reference_between(text: Seq<char>, i: int, j: int) -> bool {
    &&& 0 <= i
    &&& i + 2 < j <= text.len()
    &&& text[i] == '$'
    &&& text[i + 1] == '{'
    &&& all_digits(text, i + 2, j)
    &&& (reads_at(text, j, downcase_suffix()) || reads_at(text, j, upcase_suffix()))
}

/// A reference to a capture group begins at `i`.
pub open spec fn reference_at(text: Seq<char>, i: int) -> bool {
    numbered_reference_at(text, i) || exists|j: int| transformed_reference_between(text, i, j)
}

/// Whether `text` refers to a capture group anywhere.
pub open spec fn has_capture_reference(text: Seq<char>) -> bool {
    exists|i: int| reference_at(text, i)
}

/// Whether an optional text refers to a capture group: a text that is absent does not.
pub open spec fn refers_to_capture(text: Option<String>) -> bool {
    match text {
        Some(content) => has_capture_reference(content@),
        None => false,
    }
}

fn digit(c: char) -> (yes: bool)
    ensures
        yes == is_digit(c),
{
    '0' <= c && c <= '9'
}

/// The characters of `text`, one by one.
fn characters(text: &str) -> (chars: Vec<char>)
    ensures
        chars@ == text@,
{
    let mut chars: Vec<char> = Vec::new();
    for c in it: text.chars()
        invariant
            it.seq() == text@,
            chars@ == text@.take(it.index() as int),
    {
        chars.push(c);
        assert(chars@ =~= text@.take(it.index() as int + 1));
    }
    assert(text@.take(text@.len() as int) =~= text@);
    chars
}

fn word_at(text: &Vec<char>, at: usize, word: &Vec<char>) -> (yes: bool)
    ensures
        yes == reads_at(text@, at as int, word@),
{
    if word.len() > text.len() || at > text.len() - word.len() {
        return false;
    }
    let mut k: usize = 0;
    while k < word.len()
        invariant
            k <= word.len(),
            at + word.len() <= text.len(),
            forall|m: int| 0 <= m < k ==> text[at + m] == word[m],
        decreases word.len() - k,
    {
        if text[at + k] != word[k] {
            return false;
        }
        k = k + 1;
    }
    true
}

/// Whether a reference to a capture group begins at `i`.
fn begins_reference(text: &Vec<char>, i: usize) -> (yes: bool)
    requires
        i < text.len(),
    ensures
        yes == reference_at(text@, i as int),
{
    if text[i] != '$' || i + 1 >= text.len() {
        assert(forall|j: int| !transformed_reference_between(text@, i as int, j));
        return false;
    }
    if digit(text[i + 1]) {
        return true;
    }
    if text[i + 1] != '{' {
        assert(forall|j: int| !transformed_reference_between(text@, i as int, j));
        return false;
    }
    let mut j: usize = i + 2;
    while j < text.len() && digit(text[j])
        invariant
            i + 2 <= j <= text.len(),
            all_digits(text@, i + 2, j as int),
        decreases text.len() - j,
    {
        j = j + 1;
    }
    let downcase: Vec<char> = vec![':', '/', 'd', 'o', 'w', 'n', 'c', 'a', 's', 'e', '}'];
    let upcase: Vec<char> = vec![':', '/', 'u', 'p', 'c', 'a', 's', 'e', '}'];
    assert(downcase@ =~= downcase_suffix());
    assert(upcase@ =~= upcase_suffix());
    let closes = word_at(text, j, &downcase) || word_at(text, j, &upcase);
    let yes = j > i + 2 && closes;
    proof {
        if yes {
            assert(transformed_reference_between(text@, i as int, j as int));
        } else {
            assert forall|other: int| !transformed_reference_between(
                text@,
                i as int,
                other,
            ) by {
                if transformed_reference_between(text@, i as int, other) {
                    // The digits end where the colon stands, and nowhere else.
                    assert(text@[other] == ':');
                    if other < j {
                        assert(is_digit(text@[other]));
                    } else if other > j {
                        assert(is_digit(text@[j as int]));
                    }
                }
            }
        }
    }
    yes
}

/// Questions about the text of a scope name or a pattern.
pub struct RegexSource {}

impl RegexSource {
    /// Whether `regex_source` refers to a capture group, as `$1` and `${2:/upcase}` do.
    pub fn has_captures(regex_source: Option<String>) -> (found: bool)
        ensures
            found == refers_to_capture(regex_source),
    {
        let source = match regex_source {
            Some(source) => source,
            None => {
                return false;
            },
        };
        let text = characters(source.as_str());
        let mut i: usize = 0;
        while i < text.len()
            invariant
                i <= text.len(),
                text@ == source@,
                regex_source == Some(source),
                forall|k: int| 0 <= k < i ==> !reference_at(text@, k),
            decreases text.len() - i,
        {
            if begins_reference(&text, i) {
                assert(reference_at(source@, i as int));
                return true;
            }
            i = i + 1;
        }
        assert forall|k: int| !reference_at(text@, k) by {
            if reference_at(text@, k) && !(0 <= k < text.len()) {
                assert(!numbered_reference_at(text@, k));
                let j = choose|j: int| transformed_reference_between(text@, k, j);
                assert(false);
            }
        }
        false
    }
}

} // verus!
