//! Text helpers shared by the policy modules.
//!
//! Every function here is specified over `Seq<char>`, the view of a Rust
//! string, so that the contracts of the resolver can speak about mount
//! sources, path segments and delimited lists as plain sequences.

use vstd::prelude::*;
use vstd::std_specs::iter::IteratorSpec;

verus! {

/// The views of the elements of a sequence, in order.
pub open spec fn view_all<T: View>(s: Seq<T>) -> Seq<T::V> {
    s.map_values(|x: T| x@)
}

/// Pushing an element and then viewing is viewing and then pushing.
pub proof fn lemma_view_all_push<T: View>(s: Seq<T>, x: T)
    ensures
        view_all(s.push(x)) == view_all(s).push(x@),
{
    assert(view_all(s.push(x)) =~= view_all(s).push(x@));
}

/// Whether two string slices hold the same characters.
pub fn str_equal(a: &str, b: &str) -> (r: bool)
    ensures
        r == (a@ == b@),
{
    let x: String = a.to_owned();
    let y: String = b.to_owned();
    x == y
}

/// A copy of a list of strings.
pub fn clone_strings(v: &Vec<String>) -> (r: Vec<String>)
    ensures
        view_all(r@) == view_all(v@),
{
    let mut r: Vec<String> = Vec::new();
    let mut i: usize = 0;
    while i < v.len()
        invariant
            i <= v.len(),
            view_all(r@) == view_all(v@.take(i as int)),
        decreases v.len() - i,
    {
        let ghost before = r@;
        r.push(v[i].clone());
        proof {
            lemma_view_all_push(before, v@[i as int]);
            lemma_view_all_push(v@.take(i as int), v@[i as int]);
            assert(v@.take(i as int + 1) =~= v@.take(i as int).push(v@[i as int]));
        }
        i += 1;
    }
    assert(v@.take(v.len() as int) =~= v@);
    r
}

/// A list of owned strings with the given texts.
pub fn strings_of(texts: &[&str]) -> (r: Vec<String>)
    ensures
        r@.len() == texts@.len(),
        forall|i: int| 0 <= i < texts@.len() ==> (#[trigger] r@[i])@ == texts@[i]@,
{
    let mut r: Vec<String> = Vec::new();
    let mut i: usize = 0;
    while i < texts.len()
        invariant
            i <= texts.len(),
            r@.len() == i,
            forall|j: int| 0 <= j < i ==> (#[trigger] r@[j])@ == texts@[j]@,
        decreases texts.len() - i,
    {
        r.push(texts[i].to_string());
        i += 1;
    }
    r
}

/// Whether a list of strings holds the given text.
pub fn contains_string(v: &Vec<String>, s: &str) -> (r: bool)
    ensures
        r == view_all(v@).contains(s@),
{
    let mut i: usize = 0;
    while i < v.len()
        invariant
            i <= v.len(),
            forall|j: int| 0 <= j < i ==> view_all(v@)[j] != s@,
        decreases v.len() - i,
    {
        if str_equal(v[i].as_str(), s) {
            assert(view_all(v@)[i as int] == s@);
            return true;
        }
        i += 1;
    }
    false
}

/// The characters of a string slice, one element per character.
pub fn chars_of(s: &str) -> (v: Vec<char>)
    ensures
        v@ == s@,
{
    let mut v: Vec<char> = Vec::new();
    let mut it = s.chars();
    loop
        invariant
            v@ + it.remaining() == s@,
        ensures
            v@ == s@,
        decreases s@.len() - v@.len(),
    {
        match it.next() {
            Some(c) => {
                v.push(c);
            },
            None => {
                break ;
            },
        }
    }
    v
}

/// The pieces of `s` between occurrences of `sep`. There is always at least
/// one piece; an empty text has the single empty piece, and a separator at
/// either end gives an empty piece there.
pub open spec fn split_spec(s: Seq<char>, sep: char) -> Seq<Seq<char>>
    decreases s.len(),
{
    if s.len() == 0 {
        seq![Seq::<char>::empty()]
    } else {
        let rest = split_spec(s.drop_last(), sep);
        if s.last() == sep {
            rest.push(Seq::<char>::empty())
        } else {
            rest.drop_last().push(rest.last().push(s.last()))
        }
    }
}

/// The pieces joined with `sep` between each two neighbours.
pub open spec fn join_spec(parts: Seq<Seq<char>>, sep: Seq<char>) -> Seq<char>
    decreases parts.len(),
{
    if parts.len() == 0 {
        Seq::<char>::empty()
    } else if parts.len() == 1 {
        parts[0]
    } else {
        join_spec(parts.drop_last(), sep) + sep + parts.last()
    }
}

/// A split always yields at least one piece.
pub proof fn lemma_split_nonempty(s: Seq<char>, sep: char)
    ensures
        split_spec(s, sep).len() >= 1,
    decreases s.len(),
{
    if s.len() > 0 {
        lemma_split_nonempty(s.drop_last(), sep);
    }
}

/// No piece of a split holds the separator.
pub proof fn lemma_split_pieces_have_no_separator(s: Seq<char>, sep: char)
    ensures
        forall|i: int| 0 <= i < split_spec(s, sep).len() ==> !(#[trigger] split_spec(s, sep)[i]).contains(sep),
    decreases s.len(),
{
    if s.len() > 0 {
        lemma_split_pieces_have_no_separator(s.drop_last(), sep);
        lemma_split_nonempty(s.drop_last(), sep);
        let rest = split_spec(s.drop_last(), sep);
        if s.last() != sep {
            let grown = rest.last().push(s.last());
            assert forall|j: int| 0 <= j < grown.len() implies grown[j] != sep by {
                if j < rest.last().len() {
                    assert(rest.last().contains(rest.last()[j]));
                }
            }
        }
    }
}

/// Appending text without a separator only extends the last piece.
pub proof fn lemma_split_append_plain(s: Seq<char>, tail: Seq<char>, sep: char)
    requires
        !tail.contains(sep),
    ensures
        split_spec(s + tail, sep) == split_spec(s, sep).drop_last().push(
            split_spec(s, sep).last() + tail,
        ),
    decreases tail.len(),
{
    lemma_split_nonempty(s, sep);
    let pieces = split_spec(s, sep);
    if tail.len() == 0 {
        assert(s + tail =~= s);
        assert(pieces.last() + tail =~= pieces.last());
        assert(pieces.drop_last().push(pieces.last()) =~= pieces);
    } else {
        let shorter = tail.drop_last();
        assert forall|j: int| 0 <= j < shorter.len() implies shorter[j] != sep by {
            assert(tail.contains(tail[j]));
        }
        lemma_split_append_plain(s, shorter, sep);
        assert((s + tail).drop_last() =~= s + shorter);
        assert((s + tail).last() == tail.last());
        assert(tail.contains(tail.last()));
        let inner = pieces.drop_last().push(pieces.last() + shorter);
        assert(inner.drop_last() =~= pieces.drop_last());
        assert((pieces.last() + shorter).push(tail.last()) =~= pieces.last() + tail);
    }
}

/// Splitting what was joined gives the pieces back, provided there is at
/// least one piece and none of them holds the separator.
pub proof fn lemma_split_of_join(parts: Seq<Seq<char>>, sep: char)
    requires
        parts.len() >= 1,
        forall|i: int| 0 <= i < parts.len() ==> !(#[trigger] parts[i]).contains(sep),
    ensures
        split_spec(join_spec(parts, seq![sep]), sep) == parts,
    decreases parts.len(),
{
    let empty = Seq::<char>::empty();
    if parts.len() == 1 {
        lemma_split_append_plain(empty, parts[0], sep);
        assert(empty + parts[0] =~= parts[0]);
        assert(split_spec(empty, sep) =~= seq![empty]);
        assert(seq![empty].drop_last().push(empty + parts[0]) =~= parts);
    } else {
        let front = parts.drop_last();
        lemma_split_of_join(front, sep);
        let joined_front = join_spec(front, seq![sep]);
        let with_sep = joined_front + seq![sep];
        assert(with_sep.drop_last() =~= joined_front);
        assert(with_sep.last() == sep);
        assert(split_spec(with_sep, sep) == front.push(empty));
        lemma_split_append_plain(with_sep, parts.last(), sep);
        assert(front.push(empty).drop_last() =~= front);
        assert(empty + parts.last() =~= parts.last());
        assert(front.push(parts.last()) =~= parts);
    }
}

/// Joining the pieces of a split gives the text back.
pub proof fn lemma_join_of_split(s: Seq<char>, sep: char)
    ensures
        join_spec(split_spec(s, sep), seq![sep]) == s,
    decreases s.len(),
{
    let empty = Seq::<char>::empty();
    if s.len() == 0 {
        assert(join_spec(seq![empty], seq![sep]) =~= s);
    } else {
        let front = s.drop_last();
        lemma_join_of_split(front, sep);
        lemma_split_nonempty(front, sep);
        let rest = split_spec(front, sep);
        if s.last() == sep {
            let pieces = rest.push(empty);
            assert(pieces.drop_last() =~= rest);
            assert(join_spec(pieces, seq![sep]) =~= front + seq![sep] + empty);
            assert(front + seq![sep] + empty =~= s);
        } else {
            let grown = rest.last().push(s.last());
            let pieces = rest.drop_last().push(grown);
            assert(pieces.drop_last() =~= rest.drop_last());
            if rest.len() == 1 {
                assert(rest.last() == front);
                assert(grown =~= s);
            } else {
                assert(join_spec(rest, seq![sep]) == join_spec(rest.drop_last(), seq![sep]) + seq![
                    sep,
                ] + rest.last());
                assert(join_spec(pieces, seq![sep]) =~= join_spec(rest.drop_last(), seq![sep])
                    + seq![sep] + grown);
                assert(join_spec(rest.drop_last(), seq![sep]) + seq![sep] + grown =~= (join_spec(
                    rest.drop_last(),
                    seq![sep],
                ) + seq![sep] + rest.last()).push(s.last()));
                assert(front.push(s.last()) =~= s);
            }
        }
    }
}

/// Splits a string slice on every occurrence of `sep`.
pub fn split(s: &str, sep: char) -> (parts: Vec<String>)
    ensures
        view_all(parts@) == split_spec(s@, sep),
{
    let chars = chars_of(s);
    let n = chars.len();
    let mut parts: Vec<String> = Vec::new();
    let mut start: usize = 0;
    let mut i: usize = 0;
    assert(s@.take(0) =~= Seq::<char>::empty());
    assert(view_all(parts@).push(s@.subrange(0, 0)) =~= seq![Seq::<char>::empty()]);
    while i < n
        invariant
            chars@ == s@,
            n == chars.len(),
            start <= i <= n,
            view_all(parts@).push(s@.subrange(start as int, i as int)) == split_spec(
                s@.take(i as int),
                sep,
            ),
        decreases n - i,
    {
        let ghost before = view_all(parts@);
        let ghost old_start = start as int;
        let ghost prefix = s@.take(i as int + 1);
        assert(prefix.drop_last() =~= s@.take(i as int));
        assert(prefix.last() == s@[i as int]);
        if chars[i] == sep {
            let piece = s.substring_char(start, i).to_owned();
            parts.push(piece);
            start = i + 1;
            proof {
                assert(view_all(parts@) =~= before.push(s@.subrange(old_start, i as int)));
                assert(s@.subrange(i as int + 1, i as int + 1) =~= Seq::<char>::empty());
            }
        } else {
            proof {
                let rest = before.push(s@.subrange(old_start, i as int));
                assert(rest.drop_last() =~= before);
                assert(rest.last().push(s@[i as int]) =~= s@.subrange(old_start, i as int + 1));
            }
        }
        i += 1;
    }
    assert(s@.take(n as int) =~= s@);
    let ghost before = view_all(parts@);
    let piece = s.substring_char(start, n).to_owned();
    parts.push(piece);
    assert(view_all(parts@) =~= before.push(s@.subrange(start as int, n as int)));
    parts
}

/// Joins the strings with `sep` between each two neighbours.
pub fn join(parts: &Vec<String>, sep: &str) -> (r: String)
    ensures
        r@ == join_spec(view_all(parts@), sep@),
{
    let mut r = String::new();
    let mut i: usize = 0;
    assert(view_all(parts@).take(0) =~= Seq::<Seq<char>>::empty());
    while i < parts.len()
        invariant
            i <= parts.len(),
            r@ == join_spec(view_all(parts@).take(i as int), sep@),
        decreases parts.len() - i,
    {
        let ghost done = view_all(parts@).take(i as int);
        let ghost next = view_all(parts@).take(i as int + 1);
        assert(next.drop_last() =~= done);
        assert(next.last() == parts@[i as int]@);
        if i > 0 {
            r.append(sep);
        } else {
            assert(r@ + parts@[0]@ =~= parts@[0]@);
        }
        r.append(parts[i].as_str());
        i += 1;
    }
    assert(view_all(parts@).take(parts.len() as int) =~= view_all(parts@));
    r
}

/// What follows the last `/` of a path, or the whole path where it has none.
pub open spec fn last_segment(path: Seq<char>) -> Seq<char> {
    split_spec(path, '/').last()
}

/// The last segment is a tail of the path that holds no `/` and that starts
/// either at the beginning of the path or right after a `/`.
pub proof fn lemma_last_segment(path: Seq<char>)
    ensures
        last_segment(path).len() <= path.len(),
        last_segment(path) == path.skip(path.len() - last_segment(path).len()),
        !last_segment(path).contains('/'),
        last_segment(path).len() < path.len() ==> path[path.len() - last_segment(path).len() - 1]
            == '/',
    decreases path.len(),
{
    lemma_split_nonempty(path, '/');
    lemma_split_pieces_have_no_separator(path, '/');
    if path.len() == 0 {
        assert(last_segment(path) =~= path.skip(0));
    } else {
        let front = path.drop_last();
        lemma_last_segment(front);
        lemma_split_nonempty(front, '/');
        let rest = split_spec(front, '/');
        if path.last() == '/' {
            assert(last_segment(path) =~= path.skip(path.len() as int));
        } else {
            let grown = rest.last().push(path.last());
            assert(last_segment(path) == grown);
            assert(grown =~= path.skip(path.len() - grown.len()));
        }
    }
}

/// The part of a path after its last `/`.
pub fn last_segment_of(path: &str) -> (r: String)
    ensures
        r@ == last_segment(path@),
{
    let mut parts = split(path, '/');
    proof {
        lemma_split_nonempty(path@, '/');
    }
    let last = parts.pop();
    match last {
        Some(s) => s,
        None => String::new(),
    }
}

/// Whether a path segment names something: it is not empty and not `.`.
pub open spec fn names_something(segment: Seq<char>) -> bool {
    segment.len() > 0 && segment != seq!['.']
}

/// The segments of a path that name something, in order. Empty segments
/// (doubled or trailing slashes) and `.` segments do not count.
pub open spec fn path_components(path: Seq<char>) -> Seq<Seq<char>> {
    split_spec(path, '/').filter(|segment: Seq<char>| names_something(segment))
}

/// The final component of a path: the last segment that names something,
/// unless there is none or it is `..`.
pub open spec fn file_name_spec(path: Seq<char>) -> Option<Seq<char>> {
    let components = path_components(path);
    if components.len() == 0 || components.last() == seq!['.', '.'] {
        None
    } else {
        Some(components.last())
    }
}

/// Whether an absolute path lies in the directory `dir` under the root, or is
/// that directory itself: its first component is `dir`.
pub open spec fn under_root_dir(path: Seq<char>, dir: Seq<char>) -> bool {
    &&& path.len() > 0
    &&& path[0] == '/'
    &&& path_components(path).len() > 0
    &&& path_components(path)[0] == dir
}

/// The components of a path, each as a string of its own.
pub fn components_of(path: &str) -> (r: Vec<String>)
    ensures
        view_all(r@) == path_components(path@),
{
    let segments = split(path, '/');
    let ghost pred = |segment: Seq<char>| names_something(segment);
    let mut r: Vec<String> = Vec::new();
    let mut i: usize = 0;
    assert(view_all(segments@).take(0) =~= Seq::<Seq<char>>::empty());
    while i < segments.len()
        invariant
            i <= segments.len(),
            view_all(segments@) == split_spec(path@, '/'),
            pred == (|segment: Seq<char>| names_something(segment)),
            view_all(r@) == view_all(segments@).take(i as int).filter(pred),
        decreases segments.len() - i,
    {
        let ghost done = view_all(segments@).take(i as int);
        assert(view_all(segments@).take(i as int + 1) =~= done.push(segments@[i as int]@));
        proof {
            Seq::lemma_filter_push(done, segments@[i as int]@, pred);
            reveal_strlit(".");
        }
        let segment = &segments[i];
        let named = segment.as_str().unicode_len() > 0 && !str_equal(segment.as_str(), ".");
        assert("."@ =~= seq!['.']);
        if named {
            let ghost before = r@;
            r.push(segment.clone());
            proof {
                lemma_view_all_push(before, segments@[i as int]);
            }
        }
        i += 1;
    }
    assert(view_all(segments@).take(segments.len() as int) =~= view_all(segments@));
    r
}

/// The final component of a path, if it has one.
pub fn file_name(path: &str) -> (r: Option<String>)
    ensures
        r is Some == file_name_spec(path@) is Some,
        r matches Some(name) ==> file_name_spec(path@) == Some(name@),
{
    let mut components = components_of(path);
    let ghost all = view_all(components@);
    match components.pop() {
        Some(name) => {
            proof {
                reveal_strlit("..");
                assert(".."@ =~= seq!['.', '.']);
                assert(all.last() == name@);
            }
            if str_equal(name.as_str(), "..") {
                None
            } else {
                Some(name)
            }
        },
        None => None,
    }
}

/// Whether an absolute path has `dir` as its first component.
pub fn is_under_root_dir(path: &str, dir: &str) -> (r: bool)
    ensures
        r == under_root_dir(path@, dir@),
{
    let chars = chars_of(path);
    if chars.len() == 0 || chars[0] != '/' {
        return false;
    }
    let components = components_of(path);
    if components.len() == 0 {
        return false;
    }
    assert(view_all(components@)[0] == components@[0]@);
    str_equal(components[0].as_str(), dir)
}

/// Whether a character is a decimal digit.
pub open spec fn is_digit(c: char) -> bool {
    '0' <= c && c <= '9'
}

/// The number that a run of decimal digits writes.
pub open spec fn decimal_value(digits: Seq<char>) -> nat
    decreases digits.len(),
{
    if digits.len() == 0 {
        0
    } else {
        (decimal_value(digits.drop_last()) * 10 + (digits.last() as u32 - '0' as u32)) as nat
    }
}

/// The digits of a number text: the text itself, without one leading `+`.
pub open spec fn unsigned_digits(s: Seq<char>) -> Seq<char> {
    if s.len() > 0 && s[0] == '+' {
        s.drop_first()
    } else {
        s
    }
}

/// The 32-bit unsigned number that a text writes in decimal: an optional
/// `+`, then one or more digits, the value within range.
pub open spec fn parse_u32_spec(s: Seq<char>) -> Option<u32> {
    let digits = unsigned_digits(s);
    if digits.len() > 0 && (forall|i: int| 0 <= i < digits.len() ==> is_digit(#[trigger] digits[i]))
        && decimal_value(digits) <= u32::MAX {
        Some(decimal_value(digits) as u32)
    } else {
        None
    }
}

/// A run of digits writes at least what any of its prefixes writes.
pub proof fn lemma_decimal_value_grows(digits: Seq<char>, n: int)
    requires
        0 <= n <= digits.len(),
        forall|i: int| 0 <= i < digits.len() ==> is_digit(#[trigger] digits[i]),
    ensures
        decimal_value(digits.take(n)) <= decimal_value(digits),
    decreases digits.len(),
{
    if n == digits.len() {
        assert(digits.take(n) =~= digits);
    } else {
        let front = digits.drop_last();
        lemma_decimal_value_grows(front, n);
        assert(front.take(n) =~= digits.take(n));
        assert(is_digit(digits[digits.len() - 1]));
    }
}

/// Reads a 32-bit unsigned decimal number.
pub fn parse_u32(s: &str) -> (r: Option<u32>)
    ensures
        r == parse_u32_spec(s@),
{
    let chars = chars_of(s);
    let n = chars.len();
    let first: usize = if n > 0 && chars[0] == '+' {
        1
    } else {
        0
    };
    let ghost digits = unsigned_digits(s@);
    assert(digits =~= s@.skip(first as int));
    if first == n {
        return None;
    }
    let mut value: u64 = 0;
    let mut i: usize = first;
    assert(digits.take(0) =~= Seq::<char>::empty());
    while i < n
        invariant
            chars@ == s@,
            n == chars.len(),
            first <= i <= n,
            digits == s@.skip(first as int),
            digits == unsigned_digits(s@),
            forall|j: int| 0 <= j < i - first ==> is_digit(#[trigger] digits[j]),
            value == decimal_value(digits.take(i - first)),
            value <= u32::MAX,
        decreases n - i,
    {
        let c = chars[i];
        assert(c == digits[i - first]);
        if c < '0' || c > '9' {
            assert(!is_digit(digits[i - first]));
            return None;
        }
        let digit = (c as u32 - '0' as u32) as u64;
        let ghost longer = digits.take(i - first + 1);
        assert(longer.drop_last() =~= digits.take(i - first));
        assert(longer.last() == c);
        value = value * 10 + digit;
        assert(value == decimal_value(longer));
        if value > u32::MAX as u64 {
            proof {
                if forall|j: int| 0 <= j < digits.len() ==> is_digit(#[trigger] digits[j]) {
                    lemma_decimal_value_grows(digits, i - first + 1);
                }
            }
            return None;
        }
        i += 1;
    }
    assert(digits.take(n - first) =~= digits);
    Some(value as u32)
}

/// Whether one text comes before another, or is the same, in the order of
/// a dictionary whose letters are ordered by their code points.
pub open spec fn text_le(a: Seq<char>, b: Seq<char>) -> bool
    decreases a.len(),
{
    if a.len() == 0 {
        true
    } else if b.len() == 0 {
        false
    } else if a[0] != b[0] {
        a[0] < b[0]
    } else {
        text_le(a.drop_first(), b.drop_first())
    }
}

/// Of two texts, one comes before the other or is the same.
pub proof fn lemma_text_le_total(a: Seq<char>, b: Seq<char>)
    ensures
        text_le(a, b) || text_le(b, a),
    decreases a.len(),
{
    if a.len() > 0 && b.len() > 0 && a[0] == b[0] {
        lemma_text_le_total(a.drop_first(), b.drop_first());
    }
}

/// The order of texts is transitive.
pub proof fn lemma_text_le_transitive(a: Seq<char>, b: Seq<char>, c: Seq<char>)
    requires
        text_le(a, b),
        text_le(b, c),
    ensures
        text_le(a, c),
    decreases a.len(),
{
    if a.len() > 0 && b.len() > 0 && c.len() > 0 && a[0] == b[0] && b[0] == c[0] {
        lemma_text_le_transitive(a.drop_first(), b.drop_first(), c.drop_first());
    }
}

/// Two texts that come before each other are the same.
pub proof fn lemma_text_le_antisymmetric(a: Seq<char>, b: Seq<char>)
    requires
        text_le(a, b),
        text_le(b, a),
    ensures
        a == b,
    decreases a.len(),
{
    if a.len() > 0 && b.len() > 0 {
        lemma_text_le_antisymmetric(a.drop_first(), b.drop_first());
        assert(a =~= seq![a[0]] + a.drop_first());
        assert(b =~= seq![b[0]] + b.drop_first());
    } else {
        assert(a =~= b);
    }
}

/// Whether one text comes before another, or is the same.
pub fn is_text_le(a: &str, b: &str) -> (r: bool)
    ensures
        r == text_le(a@, b@),
{
    let x = chars_of(a);
    let y = chars_of(b);
    let mut i: usize = 0;
    assert(a@.skip(0) =~= a@);
    assert(b@.skip(0) =~= b@);
    loop
        invariant
            x@ == a@,
            y@ == b@,
            i <= x.len(),
            i <= y.len(),
            text_le(a@, b@) == text_le(a@.skip(i as int), b@.skip(i as int)),
        decreases x.len() - i,
    {
        if i == x.len() {
            return true;
        }
        if i == y.len() {
            return false;
        }
        assert(a@.skip(i as int)[0] == x@[i as int]);
        assert(b@.skip(i as int)[0] == y@[i as int]);
        assert(a@.skip(i as int).drop_first() =~= a@.skip(i as int + 1));
        assert(b@.skip(i as int).drop_first() =~= b@.skip(i as int + 1));
        if x[i] != y[i] {
            return x[i] < y[i];
        }
        i += 1;
    }
}

} // verus!
