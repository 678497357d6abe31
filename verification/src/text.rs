//! Text: comparison, trimming and lists of fields.
use vstd::prelude::*;
use vstd::string::*;
use vstd::utf8::*;

verus! {

/// The characters with the Unicode property `White_Space`.
pub open spec fn is_white_space(c: char) -> bool {
    let n = c as u32;
    ||| 0x09 <= n <= 0x0d
    ||| n == 0x20
    ||| n == 0x85
    ||| n == 0xa0
    ||| n == 0x1680
    ||| 0x2000 <= n <= 0x200a
    ||| n == 0x2028
    ||| n == 0x2029
    ||| n == 0x202f
    ||| n == 0x205f
    ||| n == 0x3000
}

/// `s` without its leading white space.
pub open spec fn trimmed_start(s: Seq<char>) -> Seq<char>
    decreases s.len(),
{
    if s.len() > 0 && is_white_space(s.first()) {
        trimmed_start(s.drop_first())
    } else {
        s
    }
}

/// `s` without its trailing white space.
pub open spec fn trimmed_end(s: Seq<char>) -> Seq<char>
    decreases s.len(),
{
    if s.len() > 0 && is_white_space(s.last()) {
        trimmed_end(s.drop_last())
    } else {
        s
    }
}

/// `s` without its leading and trailing white space.
pub open spec fn trimmed(s: Seq<char>) -> Seq<char> {
    trimmed_end(trimmed_start(s))
}

/// `str::trim`: removes leading and trailing white space, in the sense of the
/// Unicode property `White_Space`, and nothing else.
pub assume_specification[ str::trim ](s: &str) -> (trimmed_text: &str)
    ensures
        trimmed_text@ == trimmed(s@),
;

/// The lower-case form of an ASCII letter; any other character itself.
pub open spec fn ascii_lower(c: char) -> char {
    if 'A' <= c <= 'Z' {
        (c as u32 + 32) as char
    } else {
        c
    }
}

/// Whether `a` and `b` differ at most in the case of their ASCII letters.
pub open spec fn same_ignoring_ascii_case(a: Seq<char>, b: Seq<char>) -> bool {
    &&& a.len() == b.len()
    &&& forall|i: int| 0 <= i < a.len() ==> ascii_lower(#[trigger] a[i]) == ascii_lower(b[i])
}

/// `str::eq_ignore_ascii_case`: compares two texts, taking the two cases of an
/// ASCII letter for one and every other character for itself.
pub assume_specification[ str::eq_ignore_ascii_case ](a: &str, b: &str) -> (same: bool)
    ensures
        same == same_ignoring_ascii_case(a@, b@),
;

/// `String::push`: appends one character.
pub assume_specification[ String::push ](text: &mut String, c: char)
    ensures
        final(text)@ == old(text)@.push(c),
;

/// The contents of a list of strings.
pub open spec fn texts(list: Seq<String>) -> Seq<Seq<char>> {
    list.map_values(|s: String| s@)
}

/// Whether two texts are the same, character for character.
pub fn same_text(a: &str, b: &str) -> (same: bool)
    ensures
        same == (a@ == b@),
{
    let left: &[u8] = a.as_bytes();
    let right: &[u8] = b.as_bytes();
    proof {
        encode_utf8_decode_utf8(a@);
        encode_utf8_decode_utf8(b@);
    }
    if left.len() != right.len() {
        return false;
    }
    let mut i: usize = 0;
    while i < left.len()
        invariant
            left@.len() == right@.len(),
            i <= left@.len(),
            left@ == encode_utf8(a@),
            right@ == encode_utf8(b@),
            forall|j: int| 0 <= j < i ==> left@[j] == right@[j],
        decreases left.len() - i,
    {
        if left[i] != right[i] {
            return false;
        }
        i = i + 1;
    }
    proof {
        assert(left@ =~= right@);
    }
    true
}

/// Whether `list` holds `text`.
pub fn contains_text(list: &[String], text: &str) -> (found: bool)
    ensures
        found == texts(list@).contains(text@),
{
    let mut i: usize = 0;
    while i < list.len()
        invariant
            i <= list@.len(),
            forall|j: int| 0 <= j < i ==> texts(list@)[j] != text@,
        decreases list.len() - i,
    {
        if same_text(list[i].as_str(), text) {
            proof {
                assert(texts(list@)[i as int] == text@);
            }
            return true;
        }
        proof {
            assert(texts(list@)[i as int] == list@[i as int]@);
        }
        i = i + 1;
    }
    false
}

/// The fields of `s` between its separators, in order. There is one more of
/// them than there are separators.
pub open spec fn fields(s: Seq<char>, separator: char) -> Seq<Seq<char>>
    decreases s.len(),
{
    if s.len() == 0 {
        seq![Seq::<char>::empty()]
    } else {
        let before = fields(s.drop_last(), separator);
        if s.last() == separator {
            before.push(Seq::empty())
        } else {
            before.drop_last().push(before.last().push(s.last()))
        }
    }
}

/// Splits `value` at every `separator`.
pub fn split_fields(value: &str, separator: char) -> (list: Vec<String>)
    ensures
        texts(list@) == fields(value@, separator),
{
    let mut done: Vec<String> = Vec::new();
    let mut current: String = String::new();
    proof {
        assert(value@.take(0) =~= Seq::<char>::empty());
        assert(texts(done@).push(current@) =~= fields(value@.take(0), separator));
    }
    for c in chars: value.chars()
        invariant
            chars.seq() == value@,
            texts(done@).push(current@) == fields(value@.take(chars.index() as int), separator),
    {
        let ghost i = chars.index() as int;
        let ghost before = texts(done@).push(current@);
        proof {
            assert(value@.take(i + 1).drop_last() =~= value@.take(i));
            assert(value@.take(i + 1).last() == c);
            assert(before.last() == current@);
            assert(before.drop_last() =~= texts(done@));
        }
        if c == separator {
            done.push(current);
            current = String::new();
            proof {
                assert(texts(done@) =~= before);
            }
        } else {
            current.push(c);
        }
    }
    let ghost old_done = done@;
    let ghost last = current@;
    done.push(current);
    proof {
        assert(value@.take(value@.len() as int) =~= value@);
        assert(texts(done@) =~= texts(old_done).push(last));
    }
    done
}

/// The characters of `text`, in order.
pub fn chars_of(text: &str) -> (list: Vec<char>)
    ensures
        list@ == text@,
{
    let mut list: Vec<char> = Vec::new();
    for c in chars: text.chars()
        invariant
            chars.seq() == text@,
            list@ == text@.take(chars.index() as int),
    {
        list.push(c);
        proof {
            assert(list@ =~= text@.take(chars.index() + 1));
        }
    }
    proof {
        assert(text@.take(text@.len() as int) =~= text@);
    }
    list
}

/// The text made of `list`, in order.
pub fn text_of(list: &[char]) -> (text: String)
    ensures
        text@ == list@,
{
    let mut text: String = String::new();
    let mut i: usize = 0;
    while i < list.len()
        invariant
            i <= list@.len(),
            text@ == list@.take(i as int),
        decreases list.len() - i,
    {
        text.push(list[i]);
        i = i + 1;
        proof {
            assert(text@ =~= list@.take(i as int));
        }
    }
    proof {
        assert(list@.take(i as int) =~= list@);
    }
    text
}

/// A list of texts has the text of each string, in its place.
pub proof fn law_texts(list: Seq<String>)
    ensures
        texts(list).len() == list.len(),
        forall|i: int| 0 <= i < list.len() ==> #[trigger] texts(list)[i] == list[i]@,
{
}

proof fn lemma_fields_not_empty(s: Seq<char>, separator: char)
    ensures
        fields(s, separator).len() >= 1,
    decreases s.len(),
{
    if s.len() > 0 {
        lemma_fields_not_empty(s.drop_last(), separator);
    }
}

/// A text without a separator is one field.
pub proof fn law_one_field(s: Seq<char>, separator: char)
    requires
        !s.contains(separator),
    ensures
        fields(s, separator) == seq![s],
    decreases s.len(),
{
    if s.len() > 0 {
        assert forall|i: int| 0 <= i < s.drop_last().len() implies s.drop_last()[i]
            != separator by {
            assert(s[i] == s.drop_last()[i]);
            assert(s.contains(s[i]));
        }
        law_one_field(s.drop_last(), separator);
        assert(s.contains(s.last())) by {
            assert(s[s.len() - 1] == s.last());
        }
        assert(s.drop_last().push(s.last()) =~= s);
        assert(fields(s, separator) =~= seq![s]);
    } else {
        assert(s =~= Seq::<char>::empty());
        assert(fields(s, separator) =~= seq![s]);
    }
}

/// The fields of two texts with a separator between them are those of the one and
/// those of the other.
pub proof fn law_fields_around_separator(a: Seq<char>, b: Seq<char>, separator: char)
    ensures
        fields(a.push(separator) + b, separator) == fields(a, separator) + fields(b, separator),
    decreases b.len(),
{
    let whole = a.push(separator) + b;
    if b.len() == 0 {
        assert(whole =~= a.push(separator));
        assert(whole.drop_last() =~= a);
        assert(fields(whole, separator) =~= fields(a, separator) + fields(b, separator));
    } else {
        law_fields_around_separator(a, b.drop_last(), separator);
        lemma_fields_not_empty(b.drop_last(), separator);
        assert(whole.drop_last() =~= a.push(separator) + b.drop_last());
        assert(whole.last() == b.last());
        assert(fields(whole, separator) =~= fields(a, separator) + fields(b, separator));
    }
}

} // verus!
