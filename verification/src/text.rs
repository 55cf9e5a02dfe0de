use vstd::prelude::*;
use vstd::std_specs::iter::IteratorSpec;

verus! {

/// The text `s` with every occurrence of `pattern` taken out, found from the
/// left and without overlap. An empty pattern occurs nowhere.
pub open spec fn without_all(s: Seq<char>, pattern: Seq<char>) -> Seq<char>
    decreases s.len(),
{
    if pattern.len() == 0 || s.len() < pattern.len() {
        s
    } else if s.subrange(0, pattern.len() as int) == pattern {
        without_all(s.subrange(pattern.len() as int, s.len() as int), pattern)
    } else {
        seq![s[0]] + without_all(s.subrange(1, s.len() as int), pattern)
    }
}

/// The characters of a text, one by one.
pub fn chars_of(s: &str) -> (chars: Vec<char>)
    ensures
        chars@ == s@,
{
    let n = s.unicode_len();
    let mut chars: Vec<char> = Vec::new();
    let mut rest = s.chars();
    assert(chars@ + rest.remaining() =~= s@);
    loop
        invariant
            n == s@.len(),
            chars@ + rest.remaining() == s@,
        decreases n - chars@.len(),
    {
        match rest.next() {
            Some(c) => {
                chars.push(c);
                assert(chars@ + rest.remaining() =~= s@);
            },
            None => {
                assert(chars@ =~= s@);
                return chars;
            },
        }
    }
}

/// Whether `pattern` stands in `chars` at the position `at`.
fn occurs_at(chars: &Vec<char>, at: usize, pattern: &Vec<char>) -> (yes: bool)
    requires
        at <= chars@.len(),
    ensures
        yes == (at + pattern@.len() <= chars@.len() && chars@.subrange(
            at as int,
            at + pattern@.len(),
        ) == pattern@),
{
    if pattern.len() > chars.len() - at {
        return false;
    }
    let mut k: usize = 0;
    while k < pattern.len()
        invariant
            k <= pattern@.len(),
            at + pattern@.len() <= chars@.len(),
            chars@.len() <= usize::MAX,
            chars@.subrange(at as int, at + k) == pattern@.take(k as int),
        decreases pattern.len() - k,
    {
        assert(at + k < chars@.len());
        if chars[at + k] != pattern[k] {
            assert(chars@.subrange(at as int, at + pattern@.len())[k as int] != pattern@[k as int]);
            return false;
        }
        assert(chars@.subrange(at as int, at + k + 1) =~= chars@.subrange(
            at as int,
            at + k,
        ).push(chars@[at + k]));
        assert(pattern@.take(k + 1) =~= pattern@.take(k as int).push(pattern@[k as int]));
        k += 1;
    }
    assert(pattern@.take(k as int) =~= pattern@);
    true
}

/// Whether `s` begins with `prefix`.
pub fn starts_with(s: &str, prefix: &str) -> (yes: bool)
    ensures
        yes == prefix@.is_prefix_of(s@),
{
    let chars = chars_of(s);
    let pattern = chars_of(prefix);
    let yes = occurs_at(&chars, 0, &pattern);
    proof {
        if yes {
            assert(s@.subrange(0, prefix@.len() as int) =~= prefix@);
        }
        if prefix@.is_prefix_of(s@) {
            assert(s@.subrange(0, prefix@.len() as int) =~= prefix@);
        }
    }
    yes
}

/// The text `s` with every occurrence of `pattern` taken out.
pub fn remove_all(s: &str, pattern: &str) -> (text: String)
    ensures
        text@ == without_all(s@, pattern@),
{
    let chars = chars_of(s);
    let wanted = chars_of(pattern);
    if wanted.len() == 0 {
        return String::from_str(s);
    }
    let mut text = String::new();
    let mut i: usize = 0;
    let n = chars.len();
    proof {
        assert(s@.subrange(0, n as int) =~= s@);
        assert(text@ + without_all(s@, pattern@) =~= without_all(s@, pattern@));
    }
    while i < n
        invariant
            i <= n,
            n == chars@.len(),
            chars@ == s@,
            wanted@ == pattern@,
            wanted@.len() > 0,
            text@ + without_all(s@.subrange(i as int, n as int), pattern@) == without_all(
                s@,
                pattern@,
            ),
        decreases n - i,
    {
        let ghost rest = s@.subrange(i as int, n as int);
        if occurs_at(&chars, i, &wanted) {
            proof {
                assert(rest.subrange(0, pattern@.len() as int) =~= s@.subrange(
                    i as int,
                    i + pattern@.len(),
                ));
                assert(rest.subrange(pattern@.len() as int, rest.len() as int) =~= s@.subrange(
                    i + pattern@.len(),
                    n as int,
                ));
            }
            i += wanted.len();
        } else {
            proof {
                if rest.len() >= pattern@.len() {
                    assert(rest.subrange(0, pattern@.len() as int) =~= s@.subrange(
                        i as int,
                        i + pattern@.len(),
                    ));
                }
                assert(rest.subrange(1, rest.len() as int) =~= s@.subrange(i + 1, n as int));
                assert(rest[0] == s@[i as int]);
            }
            let ghost before = text@;
            text.push(chars[i]);
            assert(text@ =~= before + seq![s@[i as int]]);
            proof {
                if rest.len() < pattern@.len() {
                    lemma_short_text_stays(rest, pattern@);
                    lemma_short_text_stays(s@.subrange(i + 1, n as int), pattern@);
                    assert(rest =~= seq![rest[0]] + s@.subrange(i + 1, n as int));
                }
                assert(before + (seq![s@[i as int]] + without_all(
                    s@.subrange(i + 1, n as int),
                    pattern@,
                )) =~= (before + seq![s@[i as int]]) + without_all(
                    s@.subrange(i + 1, n as int),
                    pattern@,
                ));
            }
            i += 1;
        }
    }
    assert(s@.subrange(n as int, n as int) =~= Seq::<char>::empty());
    assert(text@ + Seq::<char>::empty() =~= text@);
    text
}

/// A text shorter than the pattern holds no occurrence of it.
pub proof fn lemma_short_text_stays(s: Seq<char>, pattern: Seq<char>)
    requires
        s.len() < pattern.len(),
    ensures
        without_all(s, pattern) == s,
{
}

/// What `str::to_lowercase` makes of a text.
pub uninterp spec fn lowercase(s: Seq<char>) -> Seq<char>;

/// `str::to_lowercase`: the text with each character in its lower case. What
/// that is depends on the text alone; it is `lowercase` of the text.
pub assume_specification[ str::to_lowercase ](s: &str) -> (lower: std::string::String)
    ensures
        lower@ == lowercase(s@),
;

/// The strings a vector holds.
pub open spec fn strings_view(strings: &Vec<String>) -> Seq<Seq<char>> {
    Seq::new(strings@.len(), |i: int| strings@[i]@)
}

/// A copy of a vector of strings.
pub fn clone_strings(strings: &Vec<String>) -> (copies: Vec<String>)
    ensures
        strings_view(&copies) == strings_view(strings),
{
    let mut copies: Vec<String> = Vec::new();
    let mut i: usize = 0;
    while i < strings.len()
        invariant
            i <= strings.len(),
            copies@.len() == i,
            forall|k: int| 0 <= k < i ==> (#[trigger] copies@[k])@ == strings@[k]@,
        decreases strings.len() - i,
    {
        copies.push(strings[i].clone());
        i += 1;
    }
    assert(strings_view(&copies) =~= strings_view(strings));
    copies
}

/// Whether two texts are the same.
pub fn same_text(a: &str, b: &str) -> (same: bool)
    ensures
        same == (a@ == b@),
{
    String::from_str(a) == String::from_str(b)
}

/// `String::push`: appends the character to the end of the string.
pub assume_specification[ std::string::String::push ](s: &mut std::string::String, c: char)
    ensures
        final(s)@ == old(s)@.push(c),
;

} // verus!
