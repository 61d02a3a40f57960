//! The byte alphabet of the telegram protocol: delimiters, character classes,
//! ASCII case folding, and maximal runs of one class inside a buffer.

use vstd::prelude::*;

verus! {

/// Start-of-telegram delimiter.
pub const START: u8 = 0x02;

/// End-of-telegram delimiter.
pub const END: u8 = 0x03;

/// Field separator inside a telegram body.
pub const SPACE: u8 = 0x20;

/// Horizontal tab, accepted wherever a blank is.
pub const TAB: u8 = 0x09;

/// True for the ASCII decimal digits `0` to `9`.
pub open spec fn spec_is_digit(character: u8) -> bool {
    0x30 <= character <= 0x39
}

/// True for the ASCII decimal digits `0` to `9`.
#[verifier::when_used_as_spec(spec_is_digit)]
pub fn is_digit(character: u8) -> (r: bool)
    ensures
        r == spec_is_digit(character),
{
    character >= 0x30 && character <= 0x39
}

/// True for a blank: space or horizontal tab.
pub open spec fn spec_is_space(character: u8) -> bool {
    character == SPACE || character == TAB
}

/// True for a blank: space or horizontal tab.
#[verifier::when_used_as_spec(spec_is_space)]
pub fn is_space(character: u8) -> (r: bool)
    ensures
        r == spec_is_space(character),
{
    character == SPACE || character == TAB
}

/// True for `0`-`9`, `A`-`F` and `a`-`f`.
pub open spec fn spec_is_hex_digit(character: u8) -> bool {
    ||| 0x30 <= character <= 0x39
    ||| 0x41 <= character <= 0x46
    ||| 0x61 <= character <= 0x66
}

/// True for `0`-`9`, `A`-`F` and `a`-`f`.
#[verifier::when_used_as_spec(spec_is_hex_digit)]
pub fn is_hex_digit(character: u8) -> (r: bool)
    ensures
        r == spec_is_hex_digit(character),
{
    (character >= 0x30 && character <= 0x39) || (character >= 0x41 && character <= 0x46) || (
    character >= 0x61 && character <= 0x66)
}

/// True for every byte but the end-of-telegram delimiter.
pub open spec fn spec_is_not_end(character: u8) -> bool {
    character != END
}

/// True for every byte but the end-of-telegram delimiter.
#[verifier::when_used_as_spec(spec_is_not_end)]
pub fn is_not_end(character: u8) -> (r: bool)
    ensures
        r == spec_is_not_end(character),
{
    character != END
}

/// Maps `A`-`Z` to `a`-`z` and leaves every other byte alone.
pub open spec fn spec_lowercase(character: u8) -> u8 {
    if 0x41 <= character <= 0x5a {
        (character + 0x20) as u8
    } else {
        character
    }
}

/// Maps `A`-`Z` to `a`-`z` and leaves every other byte alone.
#[verifier::when_used_as_spec(spec_lowercase)]
pub fn lowercase(character: u8) -> (r: u8)
    ensures
        r == spec_lowercase(character),
{
    if character >= 0x41 && character <= 0x5a {
        character + 0x20
    } else {
        character
    }
}

/// Two buffers that differ at most in the case of their ASCII letters.
pub open spec fn same_ignoring_case(a: Seq<u8>, b: Seq<u8>) -> bool {
    &&& a.len() == b.len()
    &&& forall|i: int| 0 <= i < a.len() ==> lowercase(#[trigger] a[i]) == lowercase(b[i])
}

/// The character classes the grammar scans runs of.
#[derive(Clone, Copy, Debug, PartialEq, Eq)]
pub enum ByteClass {
    /// Blanks: space and tab.
    Space,
    /// Everything but blanks: the bytes of a field.
    NonSpace,
    /// Hexadecimal digits of either case.
    HexDigit,
    /// Everything but the end delimiter.
    NotEnd,
}

impl ByteClass {
    /// Membership of one byte.
    pub open spec fn spec_contains(self, character: u8) -> bool {
        match self {
            ByteClass::Space => is_space(character),
            ByteClass::NonSpace => !is_space(character),
            ByteClass::HexDigit => is_hex_digit(character),
            ByteClass::NotEnd => is_not_end(character),
        }
    }

    /// Membership test of one byte.
    #[verifier::when_used_as_spec(spec_contains)]
    pub fn contains(self, character: u8) -> (r: bool)
        ensures
            r == self.spec_contains(character),
    {
        match self {
            ByteClass::Space => is_space(character),
            ByteClass::NonSpace => !is_space(character),
            ByteClass::HexDigit => is_hex_digit(character),
            ByteClass::NotEnd => is_not_end(character),
        }
    }
}

/// Index just past the longest run of `class` bytes that starts at `from`:
/// the first index at or after `from` whose byte is outside the class, or the
/// length of `s` when the run reaches its end.
pub open spec fn run_end(s: Seq<u8>, from: int, class: ByteClass) -> int
    decreases s.len() - from,
{
    if 0 <= from < s.len() && class.contains(s[from]) {
        run_end(s, from + 1, class)
    } else {
        from
    }
}

/// What `run_end` is, without the recursion.
pub proof fn lemma_run_end(s: Seq<u8>, from: int, class: ByteClass)
    requires
        0 <= from <= s.len(),
    ensures
        from <= run_end(s, from, class) <= s.len(),
        forall|i: int| from <= i < run_end(s, from, class) ==> class.contains(#[trigger] s[i]),
        run_end(s, from, class) < s.len() ==> !class.contains(s[run_end(s, from, class)]),
    decreases s.len() - from,
{
    if from < s.len() && class.contains(s[from]) {
        lemma_run_end(s, from + 1, class);
    }
}

/// Any index with the three properties of `lemma_run_end` is the run's end.
pub proof fn lemma_run_end_is(s: Seq<u8>, from: int, end: int, class: ByteClass)
    requires
        0 <= from <= end <= s.len(),
        forall|i: int| from <= i < end ==> class.contains(#[trigger] s[i]),
        end < s.len() ==> !class.contains(s[end]),
    ensures
        run_end(s, from, class) == end,
    decreases end - from,
{
    if from < end {
        assert(class.contains(s[from]));
        lemma_run_end_is(s, from + 1, end, class);
    }
}

/// Scans the longest run of `class` bytes that starts at `from`. At or
/// behind the end of `input` there is no run, and `from` comes back.
pub fn scan_run(input: &[u8], from: usize, class: ByteClass) -> (end: usize)
    ensures
        end == run_end(input@, from as int, class),
        from <= input@.len() ==> from <= end <= input@.len(),
{
    let mut end: usize = from;
    while end < input.len() && class.contains(input[end])
        invariant
            from <= end,
            from <= input@.len() ==> end <= input@.len(),
            run_end(input@, from as int, class) == run_end(input@, end as int, class),
        decreases input@.len() - end,
    {
        end += 1;
    }
    end
}

} // verus!
