use vstd::prelude::*;
use vstd::string::StrSliceExecFns;

verus! {

/// ASCII whitespace, as the command classifiers understand it.
pub open spec fn is_blank(c: char) -> bool {
    c == ' ' || c == '\t' || c == '\n' || c == '\r'
}

/// `s` with its leading whitespace removed.
pub open spec fn skip_blanks(s: Seq<char>) -> Seq<char>
    decreases s.len(),
{
    if s.len() == 0 {
        s
    } else if is_blank(s[0]) {
        skip_blanks(s.drop_first())
    } else {
        s
    }
}

/// The longest whitespace-free prefix of `s`.
pub open spec fn word_from(s: Seq<char>) -> Seq<char>
    decreases s.len(),
{
    if s.len() == 0 || is_blank(s[0]) {
        Seq::empty()
    } else {
        seq![s[0]] + word_from(s.drop_first())
    }
}

/// The first whitespace-delimited word of `s`; empty when `s` is all
/// whitespace.
pub open spec fn first_word(s: Seq<char>) -> Seq<char> {
    word_from(skip_blanks(s))
}

/// The prefix of `s` before its first space; the whole of `s` without one.
pub open spec fn head_segment(s: Seq<char>) -> Seq<char>
    decreases s.len(),
{
    if s.len() == 0 || s[0] == ' ' {
        Seq::empty()
    } else {
        seq![s[0]] + head_segment(s.drop_first())
    }
}

proof fn lemma_skip_blanks_at(s: Seq<char>, i: int)
    requires
        0 <= i <= s.len(),
        forall|k: int| 0 <= k < i ==> is_blank(#[trigger] s[k]),
        i < s.len() ==> !is_blank(s[i]),
    ensures
        skip_blanks(s) == s.skip(i),
    decreases i,
{
    if i == 0 {
        assert(s.skip(0) =~= s);
    } else {
        assert(is_blank(s[0]));
        assert(forall|k: int| 0 <= k < i - 1 ==> is_blank(#[trigger] s.drop_first()[k]));
        lemma_skip_blanks_at(s.drop_first(), i - 1);
        assert(s.drop_first().skip(i - 1) =~= s.skip(i));
    }
}

proof fn lemma_word_from_at(s: Seq<char>, j: int)
    requires
        0 <= j <= s.len(),
        forall|k: int| 0 <= k < j ==> !is_blank(#[trigger] s[k]),
        j < s.len() ==> is_blank(s[j]),
    ensures
        word_from(s) == s.subrange(0, j),
    decreases j,
{
    if j == 0 {
        assert(word_from(s) =~= s.subrange(0, 0));
    } else {
        assert(!is_blank(s[0]));
        assert(forall|k: int| 0 <= k < j - 1 ==> !is_blank(#[trigger] s.drop_first()[k]));
        lemma_word_from_at(s.drop_first(), j - 1);
        assert(seq![s[0]] + s.drop_first().subrange(0, j - 1) =~= s.subrange(0, j));
    }
}

proof fn lemma_head_segment_at(s: Seq<char>, j: int)
    requires
        0 <= j <= s.len(),
        forall|k: int| 0 <= k < j ==> #[trigger] s[k] != ' ',
        j < s.len() ==> s[j] == ' ',
    ensures
        head_segment(s) == s.subrange(0, j),
    decreases j,
{
    if j == 0 {
        assert(head_segment(s) =~= s.subrange(0, 0));
    } else {
        assert(s[0] != ' ');
        assert(forall|k: int| 0 <= k < j - 1 ==> #[trigger] s.drop_first()[k] != ' ');
        lemma_head_segment_at(s.drop_first(), j - 1);
        assert(seq![s[0]] + s.drop_first().subrange(0, j - 1) =~= s.subrange(0, j));
    }
}

fn is_blank_char(c: char) -> (r: bool)
    ensures
        r == is_blank(c),
{
    c == ' ' || c == '\t' || c == '\n' || c == '\r'
}

fn skip_blank_prefix(s: &str) -> (i: usize)
    ensures
        i <= s@.len(),
        forall|k: int| 0 <= k < i ==> is_blank(#[trigger] s@[k]),
        i < s@.len() ==> !is_blank(s@[i as int]),
{
    let n = s.unicode_len();
    let mut i: usize = 0;
    while i < n
        invariant
            0 <= i <= n == s@.len(),
            forall|k: int| 0 <= k < i ==> is_blank(#[trigger] s@[k]),
        decreases n - i,
    {
        if !is_blank_char(s.get_char(i)) {
            return i;
        }
        i += 1;
    }
    n
}

fn word_end_from(s: &str, from: usize) -> (j: usize)
    requires
        from <= s@.len(),
    ensures
        from <= j <= s@.len(),
        forall|k: int| from <= k < j ==> !is_blank(#[trigger] s@[k]),
        j < s@.len() ==> is_blank(s@[j as int]),
{
    let n = s.unicode_len();
    let mut j: usize = from;
    while j < n
        invariant
            from <= j <= n == s@.len(),
            forall|k: int| from <= k < j ==> !is_blank(#[trigger] s@[k]),
        decreases n - j,
    {
        if is_blank_char(s.get_char(j)) {
            return j;
        }
        j += 1;
    }
    n
}

/// The first whitespace-delimited word of `s`, as an owned string.
pub fn first_word_of(s: &str) -> (w: String)
    ensures
        w@ == first_word(s@),
{
    let i = skip_blank_prefix(s);
    let j = word_end_from(s, i);
    proof {
        lemma_skip_blanks_at(s@, i as int);
        assert(forall|k: int|
            0 <= k < j - i ==> #[trigger] s@.skip(i as int)[k] == s@[k + i as int]);
        lemma_word_from_at(s@.skip(i as int), j as int - i as int);
        assert(s@.skip(i as int).subrange(0, j as int - i as int) =~= s@.subrange(
            i as int,
            j as int,
        ));
    }
    s.substring_char(i, j).to_owned()
}

fn segment_end(s: &str) -> (j: usize)
    ensures
        j <= s@.len(),
        forall|k: int| 0 <= k < j ==> #[trigger] s@[k] != ' ',
        j < s@.len() ==> s@[j as int] == ' ',
{
    let n = s.unicode_len();
    let mut j: usize = 0;
    while j < n
        invariant
            0 <= j <= n == s@.len(),
            forall|k: int| 0 <= k < j ==> #[trigger] s@[k] != ' ',
        decreases n - j,
    {
        if s.get_char(j) == ' ' {
            return j;
        }
        j += 1;
    }
    n
}

/// The prefix of `s` before its first space, as an owned string.
pub fn head_segment_of(s: &str) -> (w: String)
    ensures
        w@ == head_segment(s@),
{
    let j = segment_end(s);
    proof {
        lemma_head_segment_at(s@, j as int);
    }
    s.substring_char(0, j).to_owned()
}

} // verus!
