use vstd::prelude::*;

verus! {

/// The whitespace the directory strips from candidate names.
pub open spec fn is_space_char(c: char) -> bool {
    c == ' ' || c == '\t' || c == '\n' || c == '\r'
}

/// `s` without its leading whitespace.
pub open spec fn trim_front(s: Seq<char>) -> Seq<char>
    decreases s.len(),
{
    if s.len() > 0 && is_space_char(s[0]) {
        trim_front(s.drop_first())
    } else {
        s
    }
}

/// `s` without its trailing whitespace.
pub open spec fn trim_back(s: Seq<char>) -> Seq<char>
    decreases s.len(),
{
    if s.len() > 0 && is_space_char(s.last()) {
        trim_back(s.drop_last())
    } else {
        s
    }
}

/// `s` without leading and trailing whitespace.
pub open spec fn trim_spec(s: Seq<char>) -> Seq<char> {
    trim_back(trim_front(s))
}

/// When the first `i` characters are whitespace and the one at `i` (if any)
/// is not, trimming the front keeps exactly the tail from `i` on.
proof fn lemma_trim_front_range(s: Seq<char>, i: int)
    requires
        0 <= i <= s.len(),
        forall|k: int| 0 <= k < i ==> is_space_char(#[trigger] s[k]),
        i < s.len() ==> !is_space_char(s[i]),
    ensures
        trim_front(s) == s.subrange(i, s.len() as int),
    decreases i,
{
    if i == 0 {
        assert(trim_front(s) =~= s.subrange(0, s.len() as int));
    } else {
        let t = s.drop_first();
        assert(is_space_char(s[0]));
        lemma_trim_front_range(t, i - 1);
        assert(t.subrange(i - 1, t.len() as int) =~= s.subrange(i, s.len() as int));
    }
}

/// When the characters from `j` on are whitespace and the one before `j`
/// (if any) is not, trimming the back keeps exactly the head up to `j`.
proof fn lemma_trim_back_range(s: Seq<char>, j: int)
    requires
        0 <= j <= s.len(),
        forall|k: int| j <= k < s.len() ==> is_space_char(#[trigger] s[k]),
        j > 0 ==> !is_space_char(s[j - 1]),
    ensures
        trim_back(s) == s.subrange(0, j),
    decreases s.len() - j,
{
    if j == s.len() {
        assert(trim_back(s) =~= s.subrange(0, j));
    } else {
        let t = s.drop_last();
        assert(is_space_char(s.last()));
        lemma_trim_back_range(t, j);
        assert(t.subrange(0, j) =~= s.subrange(0, j));
    }
}

/// Whether `c` counts as whitespace for name trimming.
fn is_space(c: char) -> (r: bool)
    ensures
        r == is_space_char(c),
{
    c == ' ' || c == '\t' || c == '\n' || c == '\r'
}

/// A copy of `s` with leading and trailing whitespace removed.
pub fn trim_text(s: &str) -> (r: String)
    ensures
        r@ == trim_spec(s@),
{
    let len = s.unicode_len();
    let mut i: usize = 0;
    while i < len && is_space(s.get_char(i))
        invariant
            i <= len,
            len == s@.len(),
            forall|k: int| 0 <= k < i ==> is_space_char(#[trigger] s@[k]),
        decreases len - i,
    {
        i = i + 1;
    }
    let mut j: usize = len;
    while j > i && is_space(s.get_char(j - 1))
        invariant
            i <= j <= len,
            len == s@.len(),
            forall|k: int| j <= k < len ==> is_space_char(#[trigger] s@[k]),
        decreases j,
    {
        j = j - 1;
    }
    let r = s.substring_char(i, j).to_owned();
    proof {
        lemma_trim_front_range(s@, i as int);
        let t = s@.subrange(i as int, s@.len() as int);
        lemma_trim_back_range(t, j - i);
        assert(t.subrange(0, j - i) =~= s@.subrange(i as int, j as int));
    }
    r
}

/// Whether `s` forms a syntactically valid bus name (unique or well-known),
/// exactly as the bus library's name parser accepts it.
pub uninterp spec fn bus_name_valid(s: Seq<char>) -> bool;

/// Relies on `zbus::names::BusName::try_from(&str)`: it accepts exactly the
/// syntactically valid bus names, a function of the characters alone.
#[verifier::external_body]
pub(crate) fn check_bus_name(s: &str) -> (r: bool)
    ensures
        r == bus_name_valid(s@),
{
    zbus::names::BusName::try_from(s).is_ok()
}

} // verus!
