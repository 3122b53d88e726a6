use vstd::prelude::*;

verus! {

/// `String::push`: the character is appended, nothing else changes.
pub assume_specification[ String::push ](s: &mut String, c: char)
    ensures
        final(s)@ == old(s)@.push(c),
;

/// The characters of a string slice, in order.
pub fn chars_of(s: &str) -> (v: Vec<char>)
    ensures
        v@ == s@,
{
    let mut v: Vec<char> = Vec::new();
    for c in it: s.chars()
        invariant
            v@ == it.seq().take(it.index()),
            it.seq() == s@,
    {
        v.push(c);
    }
    v
}

/// The text made of `v[from..to]`.
pub fn string_of(v: &Vec<char>, from: usize, to: usize) -> (s: String)
    requires
        from <= to <= v.len(),
    ensures
        s@ == v@.subrange(from as int, to as int),
{
    let mut s = String::new();
    let mut i: usize = from;
    while i < to
        invariant
            from <= i <= to <= v.len(),
            s@ == v@.subrange(from as int, i as int),
        decreases to - i,
    {
        s.push(v[i]);
        proof {
            assert(v@.subrange(from as int, i as int).push(v@[i as int]) =~= v@.subrange(
                from as int,
                i + 1,
            ));
        }
        i += 1;
    }
    s
}

/// Characters with the Unicode property White_Space.
pub open spec fn white_space(c: char) -> bool {
    let n = c as u32;
    ||| 0x09 <= n <= 0x0d
    ||| n == 0x20
    ||| n == 0x85
    ||| n == 0xa0
    ||| n == 0x1680
    ||| 0x2000 <= n <= 0x200a
    ||| n == 0x2028
    ||| n == 0x2029
    ||| n == 0x202f
    ||| n == 0x205f
    ||| n == 0x3000
}

/// Whether a character is white space.
pub fn is_white_space(c: char) -> (b: bool)
    ensures
        b == white_space(c),
{
    let n: u32 = c as u32;
    (0x09 <= n && n <= 0x0d) || n == 0x20 || n == 0x85 || n == 0xa0 || n == 0x1680 || (0x2000 <= n
        && n <= 0x200a) || n == 0x2028 || n == 0x2029 || n == 0x202f || n == 0x205f || n == 0x3000
}

/// The first position at or after `i` that holds no white space; the length
/// where there is none.
pub open spec fn skip_space(s: Seq<char>, i: int) -> int
    decreases s.len() - i,
{
    if 0 <= i < s.len() && white_space(s[i]) {
        skip_space(s, i + 1)
    } else {
        i
    }
}

/// The least `e` in `start..=end` with nothing but white space in `s[e..end]`.
pub open spec fn back_space(s: Seq<char>, start: int, end: int) -> int
    decreases end,
{
    if 0 <= start < end <= s.len() && white_space(s[end - 1]) {
        back_space(s, start, end - 1)
    } else {
        end
    }
}

/// `s` without the white space that leads and trails it.
pub open spec fn trimmed(s: Seq<char>) -> Seq<char> {
    let a = skip_space(s, 0);
    s.subrange(a, back_space(s, a, s.len() as int))
}

proof fn skip_space_skips_space(s: Seq<char>, i: int)
    requires
        0 <= i <= s.len(),
    ensures
        i <= skip_space(s, i) <= s.len(),
        forall|k: int| i <= k < skip_space(s, i) ==> white_space(#[trigger] s[k]),
        skip_space(s, i) < s.len() ==> !white_space(s[skip_space(s, i)]),
    decreases s.len() - i,
{
    if i < s.len() && white_space(s[i]) {
        skip_space_skips_space(s, i + 1);
    }
}

proof fn back_space_skips_space(s: Seq<char>, start: int, end: int)
    requires
        0 <= start <= end <= s.len(),
    ensures
        start <= back_space(s, start, end) <= end,
        forall|k: int| back_space(s, start, end) <= k < end ==> white_space(#[trigger] s[k]),
        start < back_space(s, start, end) ==> !white_space(s[back_space(s, start, end) - 1]),
    decreases end,
{
    if start < end && white_space(s[end - 1]) {
        back_space_skips_space(s, start, end - 1);
    }
}

/// A text is white space, what is left of it trimmed, and white space
/// again; what is left neither begins nor ends with white space.
pub proof fn trimmed_is_bare(s: Seq<char>)
    ensures
        ({
            let a = skip_space(s, 0);
            let b = back_space(s, a, s.len() as int);
            &&& 0 <= a <= b <= s.len()
            &&& s == s.subrange(0, a) + trimmed(s) + s.subrange(b, s.len() as int)
            &&& forall|k: int| 0 <= k < a ==> white_space(#[trigger] s[k])
            &&& forall|k: int| b <= k < s.len() ==> white_space(#[trigger] s[k])
            &&& trimmed(s).len() > 0 ==> !white_space(trimmed(s).first()) && !white_space(
                trimmed(s).last(),
            )
        }),
{
    let a = skip_space(s, 0);
    skip_space_skips_space(s, 0);
    back_space_skips_space(s, a, s.len() as int);
    let b = back_space(s, a, s.len() as int);
    assert(s =~= s.subrange(0, a) + trimmed(s) + s.subrange(b, s.len() as int));
}

/// A text that neither begins nor ends with white space is its own
/// trimmed form.
pub proof fn bare_text_is_trimmed(s: Seq<char>)
    requires
        s.len() == 0 || (!white_space(s.first()) && !white_space(s.last())),
    ensures
        trimmed(s) == s,
{
    assert(s.subrange(0, s.len() as int) =~= s);
}

/// The bounds of `trimmed(v@)` within `v`.
pub fn trim_range(v: &Vec<char>) -> (r: (usize, usize))
    ensures
        r.0 <= r.1 <= v.len(),
        r.0 == skip_space(v@, 0),
        r.1 == back_space(v@, r.0 as int, v.len() as int),
        v@.subrange(r.0 as int, r.1 as int) == trimmed(v@),
{
    let mut a: usize = 0;
    while a < v.len() && is_white_space(v[a])
        invariant
            a <= v.len(),
            skip_space(v@, 0) == skip_space(v@, a as int),
        decreases v.len() - a,
    {
        a += 1;
    }
    let mut b: usize = v.len();
    while a < b && is_white_space(v[b - 1])
        invariant
            a <= b <= v.len(),
            back_space(v@, a as int, v.len() as int) == back_space(v@, a as int, b as int),
        decreases b,
    {
        b -= 1;
    }
    (a, b)
}

/// `s` without the white space that leads and trails it.
pub fn trim(s: &str) -> (r: String)
    ensures
        r@ == trimmed(s@),
{
    let v = chars_of(s);
    let (a, b) = trim_range(&v);
    string_of(&v, a, b)
}

/// Position of the last `c` among the first `end` characters of `s`, or -1.
pub open spec fn last_index_of(s: Seq<char>, c: char, end: int) -> int
    decreases end,
{
    if end <= 0 {
        -1
    } else if s[end - 1] == c {
        end - 1
    } else {
        last_index_of(s, c, end - 1)
    }
}

/// `last_index_of` gives -1 or a position before `end` that holds `c`.
pub proof fn last_index_of_bounds(s: Seq<char>, c: char, end: int)
    requires
        0 <= end <= s.len(),
    ensures
        -1 <= last_index_of(s, c, end) < end,
        last_index_of(s, c, end) >= 0 ==> s[last_index_of(s, c, end)] == c,
    decreases end,
{
    if end > 0 && s[end - 1] != c {
        last_index_of_bounds(s, c, end - 1);
    }
}

/// One more than `last_index_of`: 0 where `c` does not occur.
pub fn after_last(v: &Vec<char>, c: char, end: usize) -> (r: usize)
    requires
        end <= v.len(),
    ensures
        r == last_index_of(v@, c, end as int) + 1,
        r <= end,
{
    let mut i: usize = end;
    while i > 0 && v[i - 1] != c
        invariant
            i <= end <= v.len(),
            last_index_of(v@, c, end as int) == last_index_of(v@, c, i as int),
        decreases i,
    {
        i -= 1;
    }
    proof {
        last_index_of_bounds(v@, c, end as int);
    }
    i
}


/// What counts as a separator when a text is cut into fields.
#[derive(Clone, Copy, PartialEq, Eq, Structural)]
pub enum Cut {
    /// The character `/`.
    Slash,
    /// Any white space.
    Space,
    /// The characters `?` and `&`.
    Query,
}

/// Whether a character separates fields.
pub open spec fn separates(cut: Cut, c: char) -> bool {
    match cut {
        Cut::Slash => c == '/',
        Cut::Space => white_space(c),
        Cut::Query => c == '?' || c == '&',
    }
}

/// The fields of `s[start..]` as seen from position `i`, where `s[start..i]`
/// holds no separator: a field ends at the next separator, and an empty
/// stretch is no field.
pub open spec fn fields_scan(s: Seq<char>, cut: Cut, start: int, i: int) -> Seq<Seq<char>>
    decreases s.len() - i,
{
    let pending = if start < i {
        seq![s.subrange(start, i)]
    } else {
        Seq::<Seq<char>>::empty()
    };
    if i < 0 || i >= s.len() {
        pending
    } else if separates(cut, s[i]) {
        pending + fields_scan(s, cut, i + 1, i + 1)
    } else {
        fields_scan(s, cut, start, i + 1)
    }
}

/// The maximal stretches of `s` that hold no separator, in order.
pub open spec fn fields(s: Seq<char>, cut: Cut) -> Seq<Seq<char>> {
    fields_scan(s, cut, 0, 0)
}

/// Whether a text holds a character, and none that separates.
pub open spec fn is_field(field: Seq<char>, cut: Cut) -> bool {
    &&& field.len() > 0
    &&& forall|k: int| 0 <= k < field.len() ==> !separates(cut, #[trigger] field[k])
}

/// Every field holds a character, and none that separates.
pub proof fn fields_hold_no_separator(s: Seq<char>, cut: Cut, start: int, i: int)
    requires
        0 <= start <= i <= s.len(),
        forall|k: int| start <= k < i ==> !separates(cut, #[trigger] s[k]),
    ensures
        forall|j: int|
            0 <= j < fields_scan(s, cut, start, i).len() ==> is_field(
                #[trigger] fields_scan(s, cut, start, i)[j],
                cut,
            ),
    decreases s.len() - i,
{
    let all = fields_scan(s, cut, start, i);
    if start < i {
        let field = s.subrange(start, i);
        assert forall|k: int| 0 <= k < field.len() implies !separates(
            cut,
            #[trigger] field[k],
        ) by {
            assert(field[k] == s[start + k]);
        }
        assert(is_field(field, cut));
    }
    if i < s.len() {
        if separates(cut, s[i]) {
            fields_hold_no_separator(s, cut, i + 1, i + 1);
            let rest = fields_scan(s, cut, i + 1, i + 1);
            assert forall|j: int| 0 <= j < all.len() implies is_field(#[trigger] all[j], cut) by {
                if start < i && j == 0 {
                    assert(all[j] == s.subrange(start, i));
                } else if start < i {
                    assert(all[j] == rest[j - 1]);
                } else {
                    assert(all[j] == rest[j]);
                }
            }
        } else {
            fields_hold_no_separator(s, cut, start, i + 1);
            assert(all == fields_scan(s, cut, start, i + 1));
        }
    }
}

/// A stretch without separators changes nothing in what is seen from its
/// first position on.
pub proof fn fields_scan_runs(s: Seq<char>, cut: Cut, start: int, i: int, j: int)
    requires
        0 <= i <= j <= s.len(),
        forall|k: int| i <= k < j ==> !separates(cut, #[trigger] s[k]),
    ensures
        fields_scan(s, cut, start, i) == fields_scan(s, cut, start, j),
    decreases j - i,
{
    if i < j {
        fields_scan_runs(s, cut, start, i + 1, j);
    }
}

/// A text that holds a character but no separator is its only field.
pub proof fn one_field(s: Seq<char>, cut: Cut)
    requires
        s.len() > 0,
        forall|k: int| 0 <= k < s.len() ==> !separates(cut, #[trigger] s[k]),
    ensures
        fields(s, cut) == seq![s],
{
    fields_scan_runs(s, cut, 0, 0, s.len() as int);
    assert(s.subrange(0, s.len() as int) =~= s);
}

/// Whether a character separates fields.
pub fn is_separator(cut: Cut, c: char) -> (b: bool)
    ensures
        b == separates(cut, c),
{
    match cut {
        Cut::Slash => c == '/',
        Cut::Space => is_white_space(c),
        Cut::Query => c == '?' || c == '&',
    }
}

/// Cuts `s` into its fields.
pub fn split_fields(s: &str, cut: Cut) -> (r: Vec<String>)
    ensures
        r.deep_view() == fields(s@, cut),
{
    let v = chars_of(s);
    let mut r: Vec<String> = Vec::new();
    let mut start: usize = 0;
    let mut i: usize = 0;
    while i < v.len()
        invariant
            start <= i <= v.len(),
            fields(v@, cut) == r.deep_view() + fields_scan(v@, cut, start as int, i as int),
        decreases v.len() - i,
    {
        if is_separator(cut, v[i]) {
            if start < i {
                let ghost before = r.deep_view();
                let piece = string_of(&v, start, i);
                r.push(piece);
                assert(r.deep_view() =~= before + seq![v@.subrange(start as int, i as int)]);
            }
            start = i + 1;
        }
        i += 1;
    }
    if start < i {
        let ghost before = r.deep_view();
        let piece = string_of(&v, start, i);
        r.push(piece);
        assert(r.deep_view() =~= before + seq![v@.subrange(start as int, i as int)]);
    }
    assert(r.deep_view() =~= fields(v@, cut));
    r
}

/// What must stand on both sides of a text for it to count as wrapped.
#[derive(Clone, Copy, PartialEq, Eq, Structural)]
pub enum Wrap {
    /// `[` before it and `]` after it.
    Brackets,
    /// Any one character on each side, a line break excepted.
    Neighbours,
}

/// Whether a character may stand before a wrapped text.
pub open spec fn opens(wrap: Wrap, c: char) -> bool {
    match wrap {
        Wrap::Brackets => c == '[',
        Wrap::Neighbours => c != '\n',
    }
}

/// Whether a character may stand after a wrapped text.
pub open spec fn closes(wrap: Wrap, c: char) -> bool {
    match wrap {
        Wrap::Brackets => c == ']',
        Wrap::Neighbours => c != '\n',
    }
}

/// Whether `inner` stands at `i + 1` in `text`, wrapped by the characters at
/// `i` and right after it.
pub open spec fn wrapped_at(text: Seq<char>, inner: Seq<char>, wrap: Wrap, i: int) -> bool {
    &&& 0 <= i
    &&& i + inner.len() + 2 <= text.len()
    &&& opens(wrap, text[i])
    &&& text.subrange(i + 1, i + 1 + inner.len()) == inner
    &&& closes(wrap, text[i + 1 + inner.len()])
}

/// `text[i..]` without the wrapped occurrences of `inner`, found from the
/// left and never overlapping; each leaves together with its two wrapping
/// characters.
pub open spec fn unwrapped_from(text: Seq<char>, inner: Seq<char>, wrap: Wrap, i: int) -> Seq<char>
    decreases text.len() - i,
{
    if i < 0 || i >= text.len() {
        Seq::empty()
    } else if wrapped_at(text, inner, wrap, i) {
        unwrapped_from(text, inner, wrap, i + inner.len() + 2)
    } else {
        seq![text[i]] + unwrapped_from(text, inner, wrap, i + 1)
    }
}

/// `text` without the wrapped occurrences of `inner`.
pub open spec fn unwrapped(text: Seq<char>, inner: Seq<char>, wrap: Wrap) -> Seq<char> {
    unwrapped_from(text, inner, wrap, 0)
}

/// Where no character from `i` on may stand before a wrapped text, nothing
/// leaves.
pub proof fn nothing_wrapped_stays(text: Seq<char>, inner: Seq<char>, wrap: Wrap, i: int)
    requires
        0 <= i <= text.len(),
        forall|k: int| i <= k < text.len() ==> !opens(wrap, #[trigger] text[k]),
    ensures
        unwrapped_from(text, inner, wrap, i) == text.subrange(i, text.len() as int),
    decreases text.len() - i,
{
    if i < text.len() {
        assert(!opens(wrap, text[i]));
        nothing_wrapped_stays(text, inner, wrap, i + 1);
        assert(seq![text[i]] + text.subrange(i + 1, text.len() as int) =~= text.subrange(
            i,
            text.len() as int,
        ));
    } else {
        assert(text.subrange(i, text.len() as int) =~= Seq::<char>::empty());
    }
}

fn is_opening(wrap: Wrap, c: char) -> (b: bool)
    ensures
        b == opens(wrap, c),
{
    match wrap {
        Wrap::Brackets => c == '[',
        Wrap::Neighbours => c != '\n',
    }
}

fn is_closing(wrap: Wrap, c: char) -> (b: bool)
    ensures
        b == closes(wrap, c),
{
    match wrap {
        Wrap::Brackets => c == ']',
        Wrap::Neighbours => c != '\n',
    }
}

/// Whether `part` stands in `v` at position `at`.
pub fn stands_at(v: &Vec<char>, part: &Vec<char>, at: usize) -> (b: bool)
    requires
        at + part.len() <= v.len(),
    ensures
        b == (v@.subrange(at as int, at + part.len()) == part@),
{
    let mut k: usize = 0;
    while k < part.len()
        invariant
            k <= part.len(),
            at + part.len() <= v.len(),
            v@.subrange(at as int, at + k) == part@.subrange(0, k as int),
        decreases part.len() - k,
    {
        if v[at + k] != part[k] {
            proof {
                let whole = v@.subrange(at as int, at + part.len());
                assert(whole[k as int] == v@[at + k]);
            }
            return false;
        }
        proof {
            assert(v@.subrange(at as int, at + k + 1) =~= v@.subrange(at as int, at + k).push(
                v@[at + k],
            ));
            assert(part@.subrange(0, k + 1) =~= part@.subrange(0, k as int).push(part@[k as int]));
        }
        k += 1;
    }
    proof {
        assert(part@.subrange(0, part.len() as int) =~= part@);
    }
    true
}

fn is_wrapped_at(text: &Vec<char>, inner: &Vec<char>, wrap: Wrap, i: usize) -> (b: bool)
    requires
        i < text.len(),
    ensures
        b == wrapped_at(text@, inner@, wrap, i as int),
{
    if inner.len() > text.len() || text.len() - inner.len() < 2 || i > text.len() - inner.len()
        - 2 {
        return false;
    }
    is_opening(wrap, text[i]) && stands_at(text, inner, i + 1) && is_closing(
        wrap,
        text[i + 1 + inner.len()],
    )
}

/// Removes from `text` every wrapped occurrence of `inner`.
pub fn strip_wrapped(text: &str, inner: &str, wrap: Wrap) -> (r: String)
    ensures
        r@ == unwrapped(text@, inner@, wrap),
{
    let t = chars_of(text);
    let n = chars_of(inner);
    let mut r = String::new();
    let mut i: usize = 0;
    while i < t.len()
        invariant
            i <= t.len(),
            unwrapped(t@, n@, wrap) == r@ + unwrapped_from(t@, n@, wrap, i as int),
        decreases t.len() - i,
    {
        if is_wrapped_at(&t, &n, wrap, i) {
            i = i + n.len() + 2;
        } else {
            let ghost before = r@;
            r.push(t[i]);
            assert(r@ + unwrapped_from(t@, n@, wrap, i + 1) =~= before + (seq![t@[i as int]]
                + unwrapped_from(t@, n@, wrap, i + 1)));
            i += 1;
        }
    }
    assert(r@ + Seq::<char>::empty() =~= r@);
    r
}

/// The texts of `parts` in order, with `sep` between neighbours.
pub open spec fn joined(parts: Seq<Seq<char>>, sep: Seq<char>) -> Seq<char>
    decreases parts.len(),
{
    if parts.len() == 0 {
        Seq::empty()
    } else if parts.len() == 1 {
        parts[0]
    } else {
        joined(parts.drop_last(), sep) + sep + parts.last()
    }
}

/// Joins `parts[from..to]` with `sep` between neighbours.
pub fn join(parts: &Vec<String>, from: usize, to: usize, sep: &str) -> (r: String)
    requires
        from <= to <= parts.len(),
    ensures
        r@ == joined(parts.deep_view().subrange(from as int, to as int), sep@),
{
    let mut r = String::new();
    let mut i: usize = from;
    let ghost all = parts.deep_view();
    while i < to
        invariant
            from <= i <= to <= parts.len(),
            all == parts.deep_view(),
            r@ == joined(all.subrange(from as int, i as int), sep@),
        decreases to - i,
    {
        proof {
            let next = all.subrange(from as int, i + 1);
            assert(next.drop_last() =~= all.subrange(from as int, i as int));
            assert(next.last() == parts@[i as int]@);
        }
        if i > from {
            r.append(sep);
        }
        r.append(parts[i].as_str());
        i += 1;
    }
    r
}

/// Whether `c` is one of the digits `0` to `9`.
pub open spec fn is_digit(c: char) -> bool {
    '0' <= c <= '9'
}

/// The number that a text of digits writes in base ten; 0 for the empty text.
pub open spec fn decimal_value(s: Seq<char>) -> int
    decreases s.len(),
{
    if s.len() == 0 {
        0
    } else {
        decimal_value(s.drop_last()) * 10 + (s.last() as int - '0' as int)
    }
}

/// The number that `s` writes, where `s` is one digit or more and the
/// number is at most `max`.
pub open spec fn decimal_within(s: Seq<char>, max: int) -> Option<int> {
    if s.len() > 0 && (forall|i: int| 0 <= i < s.len() ==> is_digit(#[trigger] s[i]))
        && decimal_value(s) <= max {
        Some(decimal_value(s))
    } else {
        None
    }
}

proof fn decimal_value_grows(s: Seq<char>, k: int)
    requires
        0 <= k <= s.len(),
        forall|i: int| 0 <= i < s.len() ==> is_digit(#[trigger] s[i]),
    ensures
        0 <= decimal_value(s.take(k)) <= decimal_value(s),
    decreases s.len() - k,
{
    if k == s.len() {
        assert(s.take(k) =~= s);
        decimal_value_nonnegative(s);
    } else {
        decimal_value_grows(s, k + 1);
        assert(s.take(k + 1).drop_last() =~= s.take(k));
        decimal_value_nonnegative(s.take(k));
    }
}

/// A text of digits writes a number that is not negative.
pub proof fn decimal_value_nonnegative(s: Seq<char>)
    requires
        forall|i: int| 0 <= i < s.len() ==> is_digit(#[trigger] s[i]),
    ensures
        0 <= decimal_value(s),
    decreases s.len(),
{
    if s.len() > 0 {
        decimal_value_nonnegative(s.drop_last());
    }
}

/// Reads `v[from..to]` as a number in base ten that is at most `max`.
pub fn parse_decimal(v: &Vec<char>, from: usize, to: usize, max: u32) -> (r: Option<u32>)
    requires
        from <= to <= v.len(),
    ensures
        match r {
            Some(n) => decimal_within(v@.subrange(from as int, to as int), max as int) == Some(
                n as int,
            ),
            None => decimal_within(v@.subrange(from as int, to as int), max as int) is None,
        },
{
    let ghost s = v@.subrange(from as int, to as int);
    if from == to {
        return None;
    }
    let mut acc: u64 = 0;
    let mut i: usize = from;
    while i < to
        invariant
            from <= i <= to <= v.len(),
            s == v@.subrange(from as int, to as int),
            forall|k: int| 0 <= k < i - from ==> is_digit(#[trigger] s[k]),
            acc == decimal_value(s.take(i - from)),
            acc <= max,
        decreases to - i,
    {
        let c = v[i];
        if !('0' <= c && c <= '9') {
            assert(!is_digit(s[i - from]));
            return None;
        }
        let d: u64 = (c as u32 - '0' as u32) as u64;
        let next: u64 = acc * 10 + d;
        proof {
            assert(s.take(i - from + 1).drop_last() =~= s.take(i - from));
            assert(s.take(i - from + 1).last() == c);
        }
        if next > max as u64 {
            proof {
                if forall|k: int| 0 <= k < s.len() ==> is_digit(#[trigger] s[k]) {
                    decimal_value_grows(s, i - from + 1);
                }
            }
            return None;
        }
        acc = next;
        i += 1;
    }
    proof {
        assert(s.take(to - from) =~= s);
    }
    Some(acc as u32)
}

/// Reads the whole of `s` as a number in base ten that is at most `max`.
pub fn parse_number(s: &str, max: u32) -> (r: Option<u32>)
    ensures
        match r {
            Some(n) => decimal_within(s@, max as int) == Some(n as int),
            None => decimal_within(s@, max as int) is None,
        },
{
    let v = chars_of(s);
    proof {
        assert(v@.subrange(0, v.len() as int) =~= v@);
    }
    parse_decimal(&v, 0, v.len(), max)
}

/// Whether `s` begins with `prefix`.
pub fn starts_with(s: &str, prefix: &str) -> (b: bool)
    ensures
        b == prefix@.is_prefix_of(s@),
{
    let v = chars_of(s);
    let p = chars_of(prefix);
    if p.len() > v.len() {
        return false;
    }
    stands_at(&v, &p, 0)
}

/// Whether two texts hold the same characters.
pub fn same_text(a: &str, b: &str) -> (same: bool)
    ensures
        same == (a@ == b@),
{
    let v = chars_of(a);
    let w = chars_of(b);
    if v.len() != w.len() {
        return false;
    }
    proof {
        assert(v@.subrange(0, v.len() as int) =~= v@);
    }
    stands_at(&v, &w, 0)
}

/// `text[i..]` without the occurrences of `part`, found from the left and
/// never overlapping. An empty `part` occurs nowhere.
pub open spec fn removed_from(text: Seq<char>, part: Seq<char>, i: int) -> Seq<char>
    decreases text.len() - i,
{
    if i < 0 || i >= text.len() {
        Seq::empty()
    } else if part.len() > 0 && i + part.len() <= text.len() && text.subrange(i, i + part.len())
        == part {
        removed_from(text, part, i + part.len())
    } else {
        seq![text[i]] + removed_from(text, part, i + 1)
    }
}

/// `text` without the occurrences of `part`.
pub open spec fn removed(text: Seq<char>, part: Seq<char>) -> Seq<char> {
    removed_from(text, part, 0)
}

/// Removes from `text[from..to]` every occurrence of `part`.
pub fn remove_all(text: &Vec<char>, part: &Vec<char>) -> (r: Vec<char>)
    ensures
        r@ == removed(text@, part@),
{
    let mut r: Vec<char> = Vec::new();
    let mut i: usize = 0;
    while i < text.len()
        invariant
            i <= text.len(),
            removed(text@, part@) == r@ + removed_from(text@, part@, i as int),
        decreases text.len() - i,
    {
        if part.len() > 0 && part.len() <= text.len() - i && stands_at(text, part, i) {
            i = i + part.len();
        } else {
            let ghost before = r@;
            r.push(text[i]);
            assert(r@ + removed_from(text@, part@, i + 1) =~= before + (seq![text@[i as int]]
                + removed_from(text@, part@, i + 1)));
            i += 1;
        }
    }
    assert(r@ + Seq::<char>::empty() =~= r@);
    r
}

/// The first position at or after `i` that holds `c`, or the length.
pub open spec fn index_of(s: Seq<char>, c: char, i: int) -> int
    decreases s.len() - i,
{
    if 0 <= i < s.len() && s[i] != c {
        index_of(s, c, i + 1)
    } else {
        i
    }
}

/// What stands in `s` before the first `c`; all of `s` where `c` does not occur.
pub open spec fn before_first(s: Seq<char>, c: char) -> Seq<char> {
    s.subrange(0, index_of(s, c, 0))
}

/// The first position at or after `from` that holds `c`, or the length.
pub fn find_from(v: &Vec<char>, c: char, from: usize) -> (r: usize)
    requires
        from <= v.len(),
    ensures
        from <= r <= v.len(),
        r == index_of(v@, c, from as int),
{
    let mut i: usize = from;
    while i < v.len() && v[i] != c
        invariant
            from <= i <= v.len(),
            index_of(v@, c, from as int) == index_of(v@, c, i as int),
        decreases v.len() - i,
    {
        i += 1;
    }
    i
}

/// The digit that writes `d`, for `d` below ten.
pub open spec fn digit_of(d: int) -> char {
    ('0' as int + d) as char
}

/// `n` written in base ten, without leading zeros; `0` is written `0`.
pub open spec fn decimal_text(n: nat) -> Seq<char>
    decreases n,
{
    if n < 10 {
        seq![digit_of(n as int)]
    } else {
        decimal_text(n / 10).push(digit_of(n as int % 10))
    }
}

/// `n` written in base ten and filled with zeros to two places: a minus
/// sign takes one of the places.
pub open spec fn two_places(n: int) -> Seq<char> {
    if n < 0 {
        seq!['-'] + decimal_text((-n) as nat)
    } else if n < 10 {
        seq!['0'] + decimal_text(n as nat)
    } else {
        decimal_text(n as nat)
    }
}

/// `n` written in base ten, with a minus sign where it is negative.
pub open spec fn signed_text(n: int) -> Seq<char> {
    if n < 0 {
        seq!['-'] + decimal_text((-n) as nat)
    } else {
        decimal_text(n as nat)
    }
}

/// Reading what `decimal_text` wrote gives the number back.
pub proof fn decimal_text_reads_back(n: nat)
    ensures
        decimal_text(n).len() > 0,
        forall|i: int| 0 <= i < decimal_text(n).len() ==> is_digit(#[trigger] decimal_text(n)[i]),
        decimal_value(decimal_text(n)) == n,
    decreases n,
{
    if n < 10 {
        let t = decimal_text(n);
        assert(t.drop_last() =~= Seq::<char>::empty());
        assert(decimal_value(t.drop_last()) == 0);
    } else {
        decimal_text_reads_back(n / 10);
        let t = decimal_text(n);
        assert(t.drop_last() =~= decimal_text(n / 10));
    }
}

/// What `two_places` wrote of a number that is not negative reads back as
/// that number; it has two digits where the number is below 100.
pub proof fn two_places_reads_back(n: int)
    requires
        0 <= n,
    ensures
        two_places(n).len() >= 2,
        n < 100 ==> two_places(n).len() == 2,
        forall|i: int| 0 <= i < two_places(n).len() ==> is_digit(#[trigger] two_places(n)[i]),
        decimal_value(two_places(n)) == n,
{
    let t = two_places(n);
    decimal_text_reads_back(n as nat);
    if n < 10 {
        assert(t =~= seq!['0', digit_of(n)]);
        assert(t.drop_last() =~= seq!['0']);
        let zero = seq!['0'];
        assert(zero.drop_last() =~= Seq::<char>::empty());
        assert(decimal_value(zero.drop_last()) == 0);
        assert(zero.last() == '0');
        assert(decimal_value(zero) == 0);
    } else {
        decimal_text_reads_back((n / 10) as nat);
        assert(t.drop_last() =~= decimal_text((n / 10) as nat));
        if n < 100 {
            assert(decimal_text((n / 10) as nat).len() == 1);
        }
    }
}

/// Appends `n` in base ten.
pub fn push_decimal(r: &mut String, n: u64)
    ensures
        final(r)@ == old(r)@ + decimal_text(n as nat),
    decreases n,
{
    if n >= 10 {
        push_decimal(r, n / 10);
    }
    let d: u8 = (n % 10) as u8;
    let c: char = (48u8 + d) as char;
    r.push(c);
    proof {
        assert(c == digit_of(n as int % 10));
        if n < 10 {
            assert(final(r)@ =~= old(r)@ + decimal_text(n as nat));
        } else {
            assert(final(r)@ =~= old(r)@ + decimal_text(n as nat));
        }
    }
}

/// Appends `n` in base ten; with `pad`, filled with zeros to two places.
pub fn push_number(r: &mut String, n: i16, pad: bool)
    ensures
        final(r)@ == old(r)@ + if pad {
            two_places(n as int)
        } else {
            signed_text(n as int)
        },
{
    let ghost before = r@;
    if n < 0 {
        r.push('-');
        push_decimal(r, (-(n as i32)) as u64);
        assert(r@ =~= before + (seq!['-'] + decimal_text((-n) as nat)));
    } else {
        if pad && n < 10 {
            r.push('0');
        }
        push_decimal(r, n as u64);
        assert(r@ =~= before + if pad {
            two_places(n as int)
        } else {
            signed_text(n as int)
        });
    }
}

} // verus!
