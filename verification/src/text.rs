//! Small operations on strings and lists of strings, stated over
//! `Seq<char>`.

use vstd::prelude::*;

verus! {

/// The contents of a list of strings: each string by its characters.
pub open spec fn views(v: Seq<String>) -> Seq<Seq<char>> {
    Seq::new(v.len(), |i: int| v[i]@)
}

/// A copy of a list of strings, with the same contents in the same order.
pub fn clone_strings(v: &Vec<String>) -> (r: Vec<String>)
    ensures
        views(r@) == views(v@),
{
    let mut out: Vec<String> = Vec::new();
    let mut i: usize = 0;
    while i < v.len()
        invariant
            i <= v.len(),
            out@.len() == i,
            forall|k: int| 0 <= k < i ==> out@[k]@ == v@[k]@,
        decreases v.len() - i,
    {
        out.push(v[i].clone());
        i += 1;
    }
    assert(views(out@) =~= views(v@));
    out
}

/// The two strings joined.
pub fn join2(a: &str, b: &str) -> (r: String)
    ensures
        r@ == a@ + b@,
{
    let mut out = String::from_str(a);
    out.append(b);
    out
}

/// The three strings joined.
pub fn join3(a: &str, b: &str, c: &str) -> (r: String)
    ensures
        r@ == a@ + b@ + c@,
{
    let mut out = String::from_str(a);
    out.append(b);
    out.append(c);
    out
}


/// `String::push` of std appends the character to the end of the string.
pub assume_specification[ String::push ](s: &mut String, ch: char)
    ensures
        final(s)@ == old(s)@.push(ch),
;

/// The characters of a string, in order.
pub fn to_chars(s: &str) -> (chars: Vec<char>)
    ensures
        chars@ == s@,
{
    let len = s.unicode_len();
    let mut chars: Vec<char> = Vec::new();
    let mut i: usize = 0;
    while i < len
        invariant
            i <= len,
            len == s@.len(),
            chars@ == s@.take(i as int),
        decreases len - i,
    {
        chars.push(s.get_char(i));
        assert(s@.take(i + 1) =~= s@.take(i as int).push(s@[i as int]));
        i += 1;
    }
    assert(s@.take(len as int) =~= s@);
    chars
}

/// The string made of the characters from `from` up to `to`.
pub fn from_chars(chars: &Vec<char>, from: usize, to: usize) -> (s: String)
    requires
        from <= to <= chars@.len(),
    ensures
        s@ == chars@.subrange(from as int, to as int),
{
    let mut out = String::new();
    let mut i: usize = from;
    assert(chars@.subrange(from as int, from as int) =~= Seq::empty());
    while i < to
        invariant
            from <= i <= to <= chars@.len(),
            out@ == chars@.subrange(from as int, i as int),
        decreases to - i,
    {
        out.push(chars[i]);
        assert(chars@.subrange(from as int, i + 1) =~= chars@.subrange(from as int, i as int).push(
            chars@[i as int],
        ));
        i += 1;
    }
    out
}

/// The pattern stands in the string at the given index.
pub open spec fn has_sub_at(s: Seq<char>, pat: Seq<char>, at: int) -> bool {
    0 <= at && at + pat.len() <= s.len() && s.subrange(at, at + pat.len()) == pat
}

/// The pattern stands somewhere in the string.
pub open spec fn contains_sub(s: Seq<char>, pat: Seq<char>) -> bool {
    exists|at: int| has_sub_at(s, pat, at)
}

/// The index of the first occurrence of the character, or the length of
/// the string where it does not occur.
pub open spec fn index_of_char(s: Seq<char>, c: char) -> int
    decreases s.len(),
{
    if s.len() == 0 {
        0
    } else if s[0] == c {
        0
    } else {
        1 + index_of_char(s.drop_first(), c)
    }
}

/// The string without the occurrences of the character.
pub open spec fn without_char(s: Seq<char>, c: char) -> Seq<char>
    decreases s.len(),
{
    if s.len() == 0 {
        Seq::empty()
    } else if s.last() == c {
        without_char(s.drop_last(), c)
    } else {
        without_char(s.drop_last(), c).push(s.last())
    }
}

/// The character is white space, as Unicode defines it.
pub open spec fn is_space(c: char) -> bool {
    let n = c as u32;
    ||| 0x09 <= n <= 0x0d
    ||| n == 0x20
    ||| n == 0x85
    ||| n == 0xa0
    ||| n == 0x1680
    ||| 0x2000 <= n <= 0x200a
    ||| n == 0x2028
    ||| n == 0x2029
    ||| n == 0x202f
    ||| n == 0x205f
    ||| n == 0x3000
}

/// The string without the white space at its start.
pub open spec fn trim_start(s: Seq<char>) -> Seq<char>
    decreases s.len(),
{
    if s.len() > 0 && is_space(s[0]) {
        trim_start(s.drop_first())
    } else {
        s
    }
}

/// The string without the white space at its end.
pub open spec fn trim_end(s: Seq<char>) -> Seq<char>
    decreases s.len(),
{
    if s.len() > 0 && is_space(s.last()) {
        trim_end(s.drop_last())
    } else {
        s
    }
}

/// The string without the white space at its start and at its end.
pub open spec fn trimmed(s: Seq<char>) -> Seq<char> {
    trim_end(trim_start(s))
}

/// The first of the fields that the separator parts the string into in
/// which the pattern stands; nothing where it stands in none.
pub open spec fn first_field_with(s: Seq<char>, sep: char, pat: Seq<char>) -> Option<Seq<char>>
    decreases s.len(),
    via first_field_with_decreases
{
    let end = index_of_char(s, sep);
    if contains_sub(s.take(end), pat) {
        Some(s.take(end))
    } else if end >= s.len() {
        None
    } else {
        first_field_with(s.skip(end + 1), sep, pat)
    }
}

#[via_fn]
proof fn first_field_with_decreases(s: Seq<char>, sep: char, pat: Seq<char>) {
    lemma_index_of_char_in_range(s, sep);
}

/// `index_of_char` is an index into the string, or its length.
pub proof fn lemma_index_of_char_in_range(s: Seq<char>, c: char)
    ensures
        0 <= index_of_char(s, c) <= s.len(),
    decreases s.len(),
{
    if s.len() > 0 && s[0] != c {
        lemma_index_of_char_in_range(s.drop_first(), c);
    }
}

/// The second of the fields that the separator parts the string into;
/// nothing where the separator does not occur.
pub open spec fn second_field(s: Seq<char>, sep: char) -> Option<Seq<char>> {
    let end = index_of_char(s, sep);
    if end >= s.len() {
        None
    } else {
        let rest = s.skip(end + 1);
        Some(rest.take(index_of_char(rest, sep)))
    }
}

/// `index_of_char` is the first index at which the character stands.
pub proof fn lemma_index_of_char(s: Seq<char>, c: char, at: int)
    requires
        0 <= at <= s.len(),
        forall|k: int| 0 <= k < at ==> s[k] != c,
        at < s.len() ==> s[at] == c,
    ensures
        index_of_char(s, c) == at,
    decreases s.len(),
{
    if s.len() > 0 && at > 0 {
        let rest = s.drop_first();
        assert forall|k: int| 0 <= k < at - 1 implies rest[k] != c by {
            assert(rest[k] == s[k + 1]);
        }
        lemma_index_of_char(rest, c, at - 1);
    }
}

/// `trim_start` drops the white space before the first other character.
pub proof fn lemma_trim_start(s: Seq<char>, at: int)
    requires
        0 <= at <= s.len(),
        forall|k: int| 0 <= k < at ==> is_space(s[k]),
        at < s.len() ==> !is_space(s[at]),
    ensures
        trim_start(s) == s.skip(at),
    decreases s.len(),
{
    if at > 0 {
        let rest = s.drop_first();
        assert forall|k: int| 0 <= k < at - 1 implies is_space(rest[k]) by {
            assert(rest[k] == s[k + 1]);
        }
        lemma_trim_start(rest, at - 1);
        assert(rest.skip(at - 1) =~= s.skip(at));
    } else {
        assert(s.skip(0) =~= s);
    }
}

/// `trim_end` drops the white space behind the last other character.
pub proof fn lemma_trim_end(s: Seq<char>, end: int)
    requires
        0 <= end <= s.len(),
        forall|k: int| end <= k < s.len() ==> is_space(s[k]),
        end > 0 ==> !is_space(s[end - 1]),
    ensures
        trim_end(s) == s.take(end),
    decreases s.len(),
{
    if end < s.len() {
        let rest = s.drop_last();
        assert forall|k: int| end <= k < rest.len() implies is_space(rest[k]) by {
            assert(rest[k] == s[k]);
        }
        lemma_trim_end(rest, end);
        assert(rest.take(end) =~= s.take(end));
    } else {
        assert(s.take(end) =~= s);
    }
}

/// Whether the character is white space.
pub fn is_space_char(c: char) -> (r: bool)
    ensures
        r == is_space(c),
{
    let n = c as u32;
    (0x09 <= n && n <= 0x0d) || n == 0x20 || n == 0x85 || n == 0xa0 || n == 0x1680 || (0x2000 <= n
        && n <= 0x200a) || n == 0x2028 || n == 0x2029 || n == 0x202f || n == 0x205f || n == 0x3000
}

/// The index of the first occurrence of the character between `from` and
/// `to`, or `to` where it does not occur there.
pub fn find_char(chars: &Vec<char>, from: usize, to: usize, c: char) -> (at: usize)
    requires
        from <= to <= chars@.len(),
    ensures
        from <= at <= to,
        at == from + index_of_char(chars@.subrange(from as int, to as int), c),
{
    let ghost part = chars@.subrange(from as int, to as int);
    let mut i: usize = from;
    while i < to
        invariant
            from <= i <= to <= chars@.len(),
            part == chars@.subrange(from as int, to as int),
            forall|k: int| 0 <= k < i - from ==> part[k] != c,
        decreases to - i,
    {
        if chars[i] == c {
            proof {
                assert(part[i - from] == c);
                lemma_index_of_char(part, c, i - from);
            }
            return i;
        }
        i += 1;
    }
    proof {
        lemma_index_of_char(part, c, i - from);
    }
    i
}

/// Whether the pattern stands somewhere between `from` and `to`.
pub fn contains_chars(chars: &Vec<char>, from: usize, to: usize, pat: &Vec<char>) -> (found: bool)
    requires
        from <= to <= chars@.len(),
    ensures
        found == contains_sub(chars@.subrange(from as int, to as int), pat@),
{
    let ghost part = chars@.subrange(from as int, to as int);
    if pat.len() > to - from {
        assert forall|at: int| !has_sub_at(part, pat@, at) by {}
        return false;
    }
    let mut at: usize = from;
    while to - at >= pat.len()
        invariant
            from <= at <= to <= chars@.len(),
            part == chars@.subrange(from as int, to as int),
            forall|a: int| 0 <= a < at - from ==> !has_sub_at(part, pat@, a),
        decreases to - at,
    {
        let mut k: usize = 0;
        let mut same = true;
        while k < pat.len() && same
            invariant
                k <= pat@.len(),
                from <= at,
                at + pat@.len() <= to,
                from <= to <= chars@.len(),
                part == chars@.subrange(from as int, to as int),
                same ==> forall|j: int| 0 <= j < k ==> part[at - from + j] == pat@[j],
                !same ==> !has_sub_at(part, pat@, at - from) && pat@.len() > 0,
            decreases pat@.len() - k + if same { 1int } else { 0int },
        {
            if chars[at + k] != pat[k] {
                same = false;
                proof {
                    let piece = part.subrange(at - from, at - from + pat@.len());
                    assert(piece[k as int] == part[at - from + k]);
                    assert(part[at - from + k] == chars@[at + k]);
                }
            } else {
                assert(part[at - from + k] == chars@[at + k]);
                k += 1;
            }
        }
        if same {
            proof {
                let piece = part.subrange(at - from, at - from + pat@.len());
                assert(piece =~= pat@);
                assert(has_sub_at(part, pat@, at - from));
            }
            return true;
        }
        at += 1;
    }
    assert forall|a: int| !has_sub_at(part, pat@, a) by {}
    false
}

/// The bounds of the first field between separators in which the pattern
/// stands; nothing where it stands in none.
pub fn find_field_with(chars: &Vec<char>, sep: char, pat: &Vec<char>) -> (bounds: Option<(usize, usize)>)
    ensures
        (match bounds {
            Some((from, to)) => from <= to <= chars@.len() && first_field_with(chars@, sep, pat@)
                == Some(chars@.subrange(from as int, to as int)),
            None => first_field_with(chars@, sep, pat@) is None,
        }),
{
    let len = chars.len();
    let mut start: usize = 0;
    assert(chars@.skip(0) =~= chars@);
    loop
        invariant
            start <= len,
            len == chars@.len(),
            first_field_with(chars@, sep, pat@) == first_field_with(
                chars@.skip(start as int),
                sep,
                pat@,
            ),
        decreases len - start,
    {
        let end = find_char(chars, start, len, sep);
        proof {
            let rest = chars@.skip(start as int);
            assert(rest =~= chars@.subrange(start as int, len as int));
            assert(rest.take(end - start) =~= chars@.subrange(start as int, end as int));
        }
        if contains_chars(chars, start, end, pat) {
            return Some((start, end));
        }
        if end >= len {
            return None;
        }
        proof {
            assert(chars@.skip(start as int).skip(end - start + 1) =~= chars@.skip(end + 1));
        }
        start = end + 1;
    }
}

} // verus!
