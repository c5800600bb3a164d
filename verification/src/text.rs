use vstd::prelude::*;

verus! {

/// The Unicode `White_Space` property (PropList.txt), which is what
/// `char::is_whitespace`, `str::trim` and `str::split_whitespace` go by.
pub open spec fn is_white_space(c: char) -> bool {
    let u = c as u32;
    ||| 0x09 <= u <= 0x0d
    ||| u == 0x20
    ||| u == 0x85
    ||| u == 0xa0
    ||| u == 0x1680
    ||| 0x2000 <= u <= 0x200a
    ||| u == 0x2028
    ||| u == 0x2029
    ||| u == 0x202f
    ||| u == 0x205f
    ||| u == 0x3000
}

/// Whether `c` is white space in the sense of [`is_white_space`].
pub fn white_space(c: char) -> (b: bool)
    ensures
        b == is_white_space(c),
{
    let u = c as u32;
    (0x09 <= u && u <= 0x0d) || u == 0x20 || u == 0x85 || u == 0xa0 || u == 0x1680 || (0x2000
        <= u && u <= 0x200a) || u == 0x2028 || u == 0x2029 || u == 0x202f || u == 0x205f || u
        == 0x3000
}

/// The characters of a string, one by one.
pub fn chars_of(s: &str) -> (v: Vec<char>)
    ensures
        v@ == s@,
{
    let n = s.unicode_len();
    let mut v: Vec<char> = Vec::new();
    let mut i: usize = 0;
    while i < n
        invariant
            n == s@.len(),
            i <= n,
            v@ == s@.take(i as int),
        decreases n - i,
    {
        let c = s.get_char(i);
        v.push(c);
        i = i + 1;
        assert(v@ =~= s@.take(i as int));
    }
    assert(v@ =~= s@);
    v
}


/// `s` without its leading white space.
pub open spec fn trim_start(s: Seq<char>) -> Seq<char>
    decreases s.len(),
{
    if s.len() > 0 && is_white_space(s[0]) {
        trim_start(s.drop_first())
    } else {
        s
    }
}

/// `s` without its trailing white space.
pub open spec fn trim_end(s: Seq<char>) -> Seq<char>
    decreases s.len(),
{
    if s.len() > 0 && is_white_space(s.last()) {
        trim_end(s.drop_last())
    } else {
        s
    }
}

/// `s` without its leading and trailing white space (what `str::trim` gives).
pub open spec fn trimmed(s: Seq<char>) -> Seq<char> {
    trim_end(trim_start(s))
}

/// The leading run of non-white-space characters of `s`.
pub open spec fn leading_word(s: Seq<char>) -> Seq<char>
    decreases s.len(),
{
    if s.len() > 0 && !is_white_space(s[0]) {
        seq![s[0]] + leading_word(s.drop_first())
    } else {
        Seq::empty()
    }
}

/// The first white-space separated word of `s`, if it has one
/// (what `str::split_whitespace().next()` gives).
pub open spec fn first_word_of(s: Seq<char>) -> Option<Seq<char>> {
    let t = trim_start(s);
    if t.len() == 0 {
        None
    } else {
        Some(leading_word(t))
    }
}

/// `needle` stands in `hay` from position `i` on.
pub open spec fn occurs_at(hay: Seq<char>, needle: Seq<char>, i: int) -> bool {
    &&& 0 <= i
    &&& i + needle.len() <= hay.len()
    &&& hay.subrange(i, i + needle.len()) == needle
}

/// `needle` is a substring of `hay` (what `str::contains` with a string pattern gives).
pub open spec fn has_substring(hay: Seq<char>, needle: Seq<char>) -> bool {
    exists|i: int| occurs_at(hay, needle, i)
}

/// `s` followed by as many spaces as it takes to reach `width` characters
/// (what the `{:<width$}` format gives).
pub open spec fn pad_right(s: Seq<char>, width: nat) -> Seq<char> {
    if s.len() < width {
        s + Seq::new((width - s.len()) as nat, |_i: int| ' ')
    } else {
        s
    }
}

/// The lower-case form of a string, as `str::to_lowercase` computes it.
pub uninterp spec fn lowercase(s: Seq<char>) -> Seq<char>;

/// Calls `str::to_lowercase`; its result is named [`lowercase`] of the argument
/// (a fixed Unicode mapping of the characters, nothing else is stated of it).
#[verifier::external_body]
pub(crate) fn to_lowercase(s: &str) -> (r: String)
    ensures
        r@ == lowercase(s@),
{
    s.to_lowercase()
}

proof fn lemma_trim_start_skip(s: Seq<char>, i: int)
    requires
        0 <= i <= s.len(),
        forall|k: int| 0 <= k < i ==> is_white_space(#[trigger] s[k]),
    ensures
        trim_start(s) == trim_start(s.skip(i)),
    decreases i,
{
    if i == 0 {
        assert(s.skip(0) =~= s);
    } else {
        assert(is_white_space(s[0]));
        let t = s.drop_first();
        assert forall|k: int| 0 <= k < i - 1 implies is_white_space(#[trigger] t[k]) by {
            assert(t[k] == s[k + 1]);
        }
        lemma_trim_start_skip(t, i - 1);
        assert(t.skip(i - 1) =~= s.skip(i));
    }
}

proof fn lemma_trim_end_take(s: Seq<char>, j: int)
    requires
        0 <= j <= s.len(),
        forall|k: int| j <= k < s.len() ==> is_white_space(#[trigger] s[k]),
    ensures
        trim_end(s) == trim_end(s.take(j)),
    decreases s.len() - j,
{
    if j == s.len() {
        assert(s.take(j) =~= s);
    } else {
        assert(is_white_space(s[s.len() - 1]));
        let t = s.drop_last();
        assert forall|k: int| j <= k < t.len() implies is_white_space(#[trigger] t[k]) by {
            assert(t[k] == s[k]);
        }
        lemma_trim_end_take(t, j);
        assert(t.take(j) =~= s.take(j));
    }
}

proof fn lemma_leading_word_take(s: Seq<char>, j: int)
    requires
        0 <= j <= s.len(),
        forall|k: int| 0 <= k < j ==> !is_white_space(#[trigger] s[k]),
        j == s.len() || is_white_space(s[j]),
    ensures
        leading_word(s) == s.take(j),
    decreases j,
{
    if j == 0 {
        assert(s.take(0) =~= Seq::<char>::empty());
    } else {
        let t = s.drop_first();
        assert forall|k: int| 0 <= k < j - 1 implies !is_white_space(#[trigger] t[k]) by {
            assert(t[k] == s[k + 1]);
        }
        assert(j - 1 == t.len() || is_white_space(t[j - 1]));
        lemma_leading_word_take(t, j - 1);
        assert(seq![s[0]] + t.take(j - 1) =~= s.take(j));
    }
}

/// A string that starts with a word and then white space has that word as
/// its first word.
pub proof fn lemma_first_word_of_word_then_space(s: Seq<char>, w: Seq<char>)
    requires
        w.len() > 0,
        forall|k: int| 0 <= k < w.len() ==> !is_white_space(#[trigger] w[k]),
        w.len() < s.len(),
        s.take(w.len() as int) == w,
        is_white_space(s[w.len() as int]),
    ensures
        first_word_of(s) == Some(w),
{
    assert(s[0] == w[0]);
    assert(trim_start(s) == s);
    assert forall|k: int| 0 <= k < w.len() implies !is_white_space(#[trigger] s[k]) by {
        assert(s[k] == s.take(w.len() as int)[k]);
    }
    lemma_leading_word_take(s, w.len() as int);
}

proof fn lemma_trim_end_prefix(s: Seq<char>)
    ensures
        trim_end(s).len() <= s.len(),
        trim_end(s) == s.take(trim_end(s).len() as int),
        trim_end(s).len() > 0 ==> !is_white_space(trim_end(s).last()),
    decreases s.len(),
{
    if s.len() > 0 && is_white_space(s.last()) {
        lemma_trim_end_prefix(s.drop_last());
        assert(s.drop_last().take(trim_end(s).len() as int) =~= s.take(trim_end(s).len() as int));
    } else {
        assert(s.take(s.len() as int) =~= s);
    }
}

proof fn lemma_trim_start_suffix(s: Seq<char>)
    ensures
        trim_start(s).len() <= s.len(),
        trim_start(s) == s.skip(s.len() - trim_start(s).len()),
        trim_start(s).len() > 0 ==> !is_white_space(trim_start(s)[0]),
    decreases s.len(),
{
    if s.len() > 0 && is_white_space(s[0]) {
        lemma_trim_start_suffix(s.drop_first());
        assert(s.drop_first().skip(s.drop_first().len() - trim_start(s).len()) =~= s.skip(
            s.len() - trim_start(s).len(),
        ));
    } else {
        assert(s.skip(0) =~= s);
    }
}

/// Trimming twice is trimming once.
pub proof fn lemma_trimmed_idempotent(s: Seq<char>)
    ensures
        trimmed(trimmed(s)) == trimmed(s),
{
    let a = trim_start(s);
    let t = trim_end(a);
    lemma_trim_start_suffix(s);
    lemma_trim_end_prefix(a);
    if t.len() > 0 {
        assert(t[0] == a[0]);
    }
    assert(trim_start(t) == t);
    assert(trim_end(t) == t);
}

/// Trimming cuts a run of white space off each end and nothing else: the
/// result is a contiguous piece of the text, everything before and after it
/// is white space, and it neither starts nor ends with white space.
pub proof fn lemma_trimmed_is_core(s: Seq<char>)
    ensures
        exists|a: int, b: int|
            #![trigger s.subrange(a, b)]
            0 <= a <= b <= s.len() && trimmed(s) == s.subrange(a, b) && (forall|k: int|
                0 <= k < a ==> is_white_space(#[trigger] s[k])) && (forall|k: int|
                b <= k < s.len() ==> is_white_space(#[trigger] s[k])) && (a < b ==> !is_white_space(
                s[a],
            ) && !is_white_space(s[b - 1])),
{
    let t = trim_start(s);
    lemma_trim_start_suffix(s);
    lemma_trim_end_prefix(t);
    let a = s.len() - t.len();
    let r = trim_end(t);
    let b = a + r.len();
    lemma_leading_white_space(s);
    assert(r =~= s.subrange(a, b));
    assert forall|k: int| b <= k < s.len() implies is_white_space(#[trigger] s[k]) by {
        lemma_trailing_white_space(t);
        assert(s[k] == t[k - a]);
    }
    if a < b {
        assert(s[a] == t[0]);
        assert(s[b - 1] == r.last());
    }
    assert(0 <= a <= b <= s.len() && trimmed(s) == s.subrange(a, b));
}

proof fn lemma_leading_white_space(s: Seq<char>)
    ensures
        forall|k: int| 0 <= k < s.len() - trim_start(s).len() ==> is_white_space(#[trigger] s[k]),
    decreases s.len(),
{
    if s.len() > 0 && is_white_space(s[0]) {
        let t = s.drop_first();
        lemma_leading_white_space(t);
        assert forall|k: int| 0 <= k < s.len() - trim_start(s).len() implies is_white_space(
            #[trigger] s[k],
        ) by {
            if k > 0 {
                assert(s[k] == t[k - 1]);
            }
        }
    }
}

proof fn lemma_trailing_white_space(s: Seq<char>)
    ensures
        forall|k: int| trim_end(s).len() <= k < s.len() ==> is_white_space(#[trigger] s[k]),
    decreases s.len(),
{
    if s.len() > 0 && is_white_space(s.last()) {
        let t = s.drop_last();
        lemma_trailing_white_space(t);
        assert forall|k: int| trim_end(s).len() <= k < s.len() implies is_white_space(
            #[trigger] s[k],
        ) by {
            if k < s.len() - 1 {
                assert(s[k] == t[k]);
            }
        }
    }
}

/// `w` is a non-empty run of non-white-space characters that stands in `s`
/// at `a`, with only white space before it and white space or the end after it.
pub open spec fn word_at(s: Seq<char>, w: Seq<char>, a: int) -> bool {
    &&& 0 <= a
    &&& a + w.len() <= s.len()
    &&& w.len() > 0
    &&& s.subrange(a, a + w.len()) == w
    &&& forall|k: int| 0 <= k < a ==> is_white_space(#[trigger] s[k])
    &&& forall|k: int| 0 <= k < w.len() ==> !is_white_space(#[trigger] w[k])
    &&& (a + w.len() == s.len() || is_white_space(s[a + w.len()]))
}

/// The first word is absent exactly when the text is all white space;
/// otherwise it is a non-empty run of non-white-space characters of the
/// text, preceded only by white space and followed by white space or the end.
pub proof fn lemma_first_word_is_first_run(s: Seq<char>)
    ensures
        first_word_of(s) is None <==> (forall|k: int| 0 <= k < s.len() ==> is_white_space(
            #[trigger] s[k],
        )),
        first_word_of(s) matches Some(w) ==> exists|a: int| #[trigger] word_at(s, w, a),
{
    let t = trim_start(s);
    lemma_trim_start_suffix(s);
    lemma_leading_white_space(s);
    let a = s.len() - t.len();
    if t.len() == 0 {
        assert forall|k: int| 0 <= k < s.len() implies is_white_space(#[trigger] s[k]) by {}
        assert(first_word_of(s) is None);
    } else {
        assert(first_word_of(s) is Some);
        assert(s[a] == t[0]);
        assert(!is_white_space(s[a]));
        assert(!(forall|k: int| 0 <= k < s.len() ==> is_white_space(#[trigger] s[k])));
        lemma_leading_word_run(t);
        let w = leading_word(t);
        assert(s.subrange(a, a + w.len()) =~= t.take(w.len() as int));
        if a + w.len() < s.len() {
            assert(s[a + w.len()] == t[w.len() as int]);
        }
        assert(0 <= a && a + w.len() <= s.len() && w.len() > 0 && s.subrange(a, a + w.len()) == w);
        assert(forall|k: int| 0 <= k < a ==> is_white_space(#[trigger] s[k]));
        assert(forall|k: int| 0 <= k < w.len() ==> !is_white_space(#[trigger] w[k]));
        assert(a + w.len() == s.len() || is_white_space(s[a + w.len()]));
        assert(word_at(s, w, a));
        assert(first_word_of(s) == Some(w));
        assert(word_at(s, first_word_of(s)->Some_0, a));
    }
}

proof fn lemma_leading_word_run(t: Seq<char>)
    ensures
        leading_word(t).len() <= t.len(),
        leading_word(t) == t.take(leading_word(t).len() as int),
        forall|k: int| 0 <= k < leading_word(t).len() ==> !is_white_space(#[trigger] leading_word(t)[k]),
        leading_word(t).len() < t.len() ==> is_white_space(t[leading_word(t).len() as int]),
        t.len() > 0 && !is_white_space(t[0]) ==> leading_word(t).len() > 0,
    decreases t.len(),
{
    if t.len() > 0 && !is_white_space(t[0]) {
        let u = t.drop_first();
        lemma_leading_word_run(u);
        let w = leading_word(t);
        let wu = leading_word(u);
        assert(w == seq![t[0]] + wu);
        assert(w =~= t.take(w.len() as int));
        assert forall|k: int| 0 <= k < w.len() implies !is_white_space(#[trigger] w[k]) by {
            if k > 0 {
                assert(w[k] == wu[k - 1]);
            }
        }
        if w.len() < t.len() {
            assert(t[w.len() as int] == u[wu.len() as int]);
        }
    } else {
        assert(t.take(0) =~= Seq::<char>::empty());
    }
}

/// Padding keeps the text as it is at the front and fills up with spaces to
/// the width; a text at least as wide is left alone.
pub proof fn lemma_pad_right_shape(s: Seq<char>, width: nat)
    ensures
        pad_right(s, width).len() == if s.len() < width { width } else { s.len() },
        pad_right(s, width).take(s.len() as int) == s,
        forall|k: int| s.len() <= k < pad_right(s, width).len() ==> #[trigger] pad_right(s, width)[k] == ' ',
{
    assert(pad_right(s, width).take(s.len() as int) =~= s);
}

/// Index of the first non-white-space character of `v` (or its length).
fn skip_white_space(v: &Vec<char>) -> (a: usize)
    ensures
        a <= v@.len(),
        forall|k: int| 0 <= k < a ==> is_white_space(#[trigger] v@[k]),
        a < v@.len() ==> !is_white_space(v@[a as int]),
        trim_start(v@) == v@.skip(a as int),
{
    let n = v.len();
    let mut a: usize = 0;
    while a < n && white_space(v[a])
        invariant
            n == v@.len(),
            a <= n,
            forall|k: int| 0 <= k < a ==> is_white_space(#[trigger] v@[k]),
        decreases n - a,
    {
        a = a + 1;
    }
    proof {
        lemma_trim_start_skip(v@, a as int);
        if a == n {
            assert(v@.skip(a as int) =~= Seq::<char>::empty());
        }
    }
    a
}

/// `str::trim`: the string without leading and trailing white space.
pub fn trim(s: &str) -> (r: String)
    ensures
        r@ == trimmed(s@),
{
    let v = chars_of(s);
    let n = v.len();
    let a = skip_white_space(&v);
    let mut b: usize = n;
    while b > a && white_space(v[b - 1])
        invariant
            n == v@.len(),
            a <= b <= n,
            forall|k: int| b <= k < n ==> is_white_space(#[trigger] v@[k]),
        decreases b,
    {
        b = b - 1;
    }
    proof {
        let t = v@.skip(a as int);
        assert forall|k: int| b - a <= k < t.len() implies is_white_space(#[trigger] t[k]) by {
            assert(t[k] == v@[k + a]);
        }
        lemma_trim_end_take(t, b - a);
        assert(t.take(b - a) =~= v@.subrange(a as int, b as int));
        if b > a {
            assert(t.take(b - a).last() == v@[b - 1]);
        } else {
            assert(t.take(0).len() == 0);
        }
    }
    let r = s.substring_char(a, b);
    r.to_owned()
}

/// `str::split_whitespace().next()`: the first white-space separated word, if any.
pub fn first_word(s: &str) -> (r: Option<String>)
    ensures
        r matches Some(w) ==> first_word_of(s@) == Some(w@),
        r is None ==> first_word_of(s@) is None,
{
    let v = chars_of(s);
    let n = v.len();
    let a = skip_white_space(&v);
    if a == n {
        return None;
    }
    let mut b: usize = a;
    while b < n && !white_space(v[b])
        invariant
            n == v@.len(),
            a <= b <= n,
            forall|k: int| a <= k < b ==> !is_white_space(#[trigger] v@[k]),
        decreases n - b,
    {
        b = b + 1;
    }
    proof {
        let t = v@.skip(a as int);
        assert forall|k: int| 0 <= k < b - a implies !is_white_space(#[trigger] t[k]) by {
            assert(t[k] == v@[k + a]);
        }
        if b < n {
            assert(t[b - a] == v@[b as int]);
        }
        lemma_leading_word_take(t, b - a);
        assert(t.take(b - a) =~= v@.subrange(a as int, b as int));
    }
    let w = s.substring_char(a, b);
    Some(w.to_owned())
}

/// Substring test on character vectors.
pub fn contains_chars(hay: &Vec<char>, needle: &Vec<char>) -> (b: bool)
    ensures
        b == has_substring(hay@, needle@),
{
    let h = hay.len();
    let n = needle.len();
    if n > h {
        assert forall|i: int| !occurs_at(hay@, needle@, i) by {}
        return false;
    }
    let mut i: usize = 0;
    while i <= h - n
        invariant
            h == hay@.len(),
            n == needle@.len(),
            n <= h,
            i <= h - n + 1,
            forall|k: int| 0 <= k < i ==> !occurs_at(hay@, needle@, k),
        decreases h - n + 1 - i,
    {
        let mut j: usize = 0;
        let mut same = true;
        while j < n && same
            invariant
                h == hay@.len(),
                n == needle@.len(),
                i + n <= h,
                j <= n,
                same ==> forall|k: int| 0 <= k < j ==> hay@[i + k] == needle@[k],
                !same ==> j > 0 && hay@[i + j - 1] != needle@[j - 1],
            decreases n - j,
        {
            if hay[i + j] != needle[j] {
                same = false;
            }
            j = j + 1;
        }
        if same {
            assert(hay@.subrange(i as int, i + n) =~= needle@);
            assert(occurs_at(hay@, needle@, i as int));
            return true;
        }
        assert(hay@.subrange(i as int, i + n)[j - 1] == hay@[i + j - 1]);
        assert(!occurs_at(hay@, needle@, i as int));
        i = i + 1;
    }
    assert(forall|k: int| !occurs_at(hay@, needle@, k));
    false
}

/// `s` padded on the right with spaces to `width` characters.
pub fn pad_right_to(s: &str, width: usize) -> (r: String)
    ensures
        r@ == pad_right(s@, width as nat),
{
    let mut r = String::from_str(s);
    let mut n = s.unicode_len();
    proof {
        reveal_strlit(" ");
        assert(" "@ =~= seq![' ']);
    }
    while n < width
        invariant
            " "@ == seq![' '],
            n <= width || n == s@.len(),
            s@.len() <= n,
            r@ == s@ + Seq::new((n - s@.len()) as nat, |_i: int| ' '),
        decreases width - n,
    {
        let ghost before = r@;
        r.append(" ");
        assert(r@ == before + seq![' ']);
        n = n + 1;
        assert(r@ =~= s@ + Seq::new((n - s@.len()) as nat, |_i: int| ' '));
    }
    proof {
        if s@.len() >= width {
            assert(r@ =~= s@);
        }
    }
    r
}

} // verus!
