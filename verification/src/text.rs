//! Operations on names and paths, stated over sequences of characters.

use vstd::prelude::*;

verus! {

/// Position of the first `c` in `s`, or `s.len()` where `s` holds none.
pub open spec fn first_index_of(s: Seq<char>, c: char) -> int
    decreases s.len(),
{
    if s.len() == 0 {
        0
    } else if s[0] == c {
        0
    } else {
        1 + first_index_of(s.drop_first(), c)
    }
}

/// `i` is where the first `c` of `s` stands, or the length of a `s` without one.
pub open spec fn is_first_index_of(s: Seq<char>, c: char, i: int) -> bool {
    &&& 0 <= i <= s.len()
    &&& forall|j: int| 0 <= j < i ==> s[j] != c
    &&& i < s.len() ==> s[i] == c
}

/// `first_index_of` is the one position that `is_first_index_of` accepts.
pub proof fn lemma_first_index_of(s: Seq<char>, c: char)
    ensures
        is_first_index_of(s, c, first_index_of(s, c)),
        forall|i: int| is_first_index_of(s, c, i) ==> i == first_index_of(s, c),
    decreases s.len(),
{
    if s.len() == 0 {
    } else if s[0] == c {
        assert forall|i: int| is_first_index_of(s, c, i) implies i == 0 by {
            if i > 0 {
                assert(s[0] != c);
            }
        }
    } else {
        let t = s.drop_first();
        lemma_first_index_of(t, c);
        let k = first_index_of(t, c);
        assert forall|j: int| 0 <= j < k + 1 implies s[j] != c by {
            if j > 0 {
                assert(t[j - 1] == s[j]);
            }
        }
        if k + 1 < s.len() {
            assert(t[k] == s[k + 1]);
        }
        assert forall|i: int| is_first_index_of(s, c, i) implies i == k + 1 by {
            assert(i > 0);
            assert forall|j: int| 0 <= j < i - 1 implies t[j] != c by {
                assert(t[j] == s[j + 1]);
            }
            if i - 1 < t.len() {
                assert(t[i - 1] == s[i]);
            }
            assert(is_first_index_of(t, c, i - 1));
        }
    }
}

/// The part of `s` before its first `c`; all of `s` where it holds none.
pub open spec fn before_first(s: Seq<char>, c: char) -> Seq<char> {
    s.subrange(0, first_index_of(s, c))
}

/// `dir`, a slash, `name`.
pub open spec fn path_join(dir: Seq<char>, name: Seq<char>) -> Seq<char> {
    dir + seq!['/'] + name
}

/// Finds the first `c` in `s`.
pub fn find_char(s: &str, c: char) -> (i: usize)
    ensures
        i == first_index_of(s@, c),
{
    let n = s.unicode_len();
    let mut i: usize = 0;
    while i < n
        invariant
            n == s@.len(),
            i <= n,
            forall|j: int| 0 <= j < i ==> s@[j] != c,
        decreases n - i,
    {
        if s.get_char(i) == c {
            proof {
                lemma_first_index_of(s@, c);
                assert(is_first_index_of(s@, c, i as int));
            }
            return i;
        }
        i += 1;
    }
    proof {
        lemma_first_index_of(s@, c);
        assert(is_first_index_of(s@, c, i as int));
    }
    i
}

/// The part of `s` before its first `c`, as an owned string.
pub fn prefix_before(s: &str, c: char) -> (r: String)
    ensures
        r@ == before_first(s@, c),
{
    let i = find_char(s, c);
    proof {
        lemma_first_index_of(s@, c);
    }
    s.substring_char(0, i).to_owned()
}

/// Whether `s` ends in `suffix`.
pub fn has_suffix(s: &str, suffix: &str) -> (b: bool)
    ensures
        b == suffix@.is_suffix_of(s@),
{
    let n = s.unicode_len();
    let m = suffix.unicode_len();
    if m > n {
        return false;
    }
    let tail = s.substring_char(n - m, n);
    str_eq(tail, suffix)
}

/// Whether `s` begins with `prefix`.
pub fn has_prefix(s: &str, prefix: &str) -> (b: bool)
    ensures
        b == prefix@.is_prefix_of(s@),
{
    let n = s.unicode_len();
    let m = prefix.unicode_len();
    if m > n {
        return false;
    }
    let head = s.substring_char(0, m);
    str_eq(head, prefix)
}

/// Whether two strings hold the same characters.
pub fn str_eq(a: &str, b: &str) -> (r: bool)
    ensures
        r == (a@ == b@),
{
    let n = a.unicode_len();
    if b.unicode_len() != n {
        return false;
    }
    let mut i: usize = 0;
    while i < n
        invariant
            n == a@.len(),
            n == b@.len(),
            i <= n,
            forall|j: int| 0 <= j < i ==> a@[j] == b@[j],
        decreases n - i,
    {
        if a.get_char(i) != b.get_char(i) {
            return false;
        }
        i += 1;
    }
    assert(a@ =~= b@);
    true
}

/// `a` followed by `b`.
pub fn append_text(a: &str, b: &str) -> (r: String)
    ensures
        r@ == a@ + b@,
{
    let mut r = a.to_owned();
    r.append(b);
    r
}

/// The path of `name` inside `dir`.
pub fn join(dir: &str, name: &str) -> (r: String)
    ensures
        r@ == path_join(dir@, name@),
{
    let mut r = dir.to_owned();
    proof {
        reveal_strlit("/");
    }
    r.append("/");
    r.append(name);
    assert("/"@ =~= seq!['/']);
    r
}

/// The ending of an object file's name.
pub open spec fn object_ending() -> Seq<char> {
    ".o"@
}

/// The names of a directory listing that end like an object file, in listing
/// order. Each entry of a listing is a name and whether it is a directory.
pub open spec fn object_names(listing: Seq<(Seq<char>, bool)>) -> Seq<Seq<char>>
    decreases listing.len(),
{
    if listing.len() == 0 {
        Seq::empty()
    } else {
        let earlier = object_names(listing.drop_last());
        if object_ending().is_suffix_of(listing.last().0) {
            earlier.push(listing.last().0)
        } else {
            earlier
        }
    }
}

/// Every object name of a listing is a name of the listing, ends like an
/// object file, and stands where the listing has it: names that differ in the
/// listing differ here.
pub proof fn lemma_object_names(listing: Seq<(Seq<char>, bool)>)
    ensures
        forall|k: int|
            0 <= k < object_names(listing).len() ==> object_ending().is_suffix_of(
                #[trigger] object_names(listing)[k],
            ),
        forall|k: int|
            0 <= k < object_names(listing).len() ==> exists|i: int|
                0 <= i < listing.len() && listing[i].0 == #[trigger] object_names(listing)[k],
        (forall|i: int, j: int|
            0 <= i < j < listing.len() ==> (#[trigger] listing[i]).0 != (#[trigger] listing[j]).0)
            ==> object_names(listing).no_duplicates(),
    decreases listing.len(),
{
    if listing.len() > 0 {
        let rest = listing.drop_last();
        lemma_object_names(rest);
        let names = object_names(listing);
        assert forall|k: int| 0 <= k < names.len() implies exists|i: int|
            0 <= i < listing.len() && listing[i].0 == #[trigger] names[k] by {
            if k < object_names(rest).len() {
                let i = choose|i: int| 0 <= i < rest.len() && rest[i].0 == object_names(rest)[k];
                assert(listing[i] == rest[i]);
            } else {
                assert(listing[listing.len() - 1].0 == names[k]);
            }
        }
        if forall|i: int, j: int|
            0 <= i < j < listing.len() ==> (#[trigger] listing[i]).0 != (#[trigger] listing[j]).0 {
            assert forall|i: int, j: int| 0 <= i < j < rest.len() implies (#[trigger] rest[i]).0 != (
            #[trigger] rest[j]).0 by {
                assert(listing[i] == rest[i] && listing[j] == rest[j]);
            }
            assert forall|a: int, b: int| 0 <= a < names.len() && 0 <= b < names.len() && a != b implies names[a]
                != names[b] by {
                let old_len = object_names(rest).len();
                if a < old_len && b < old_len {
                } else {
                    let small = if a < b { a } else { b };
                    let i = choose|i: int| 0 <= i < rest.len() && rest[i].0 == object_names(rest)[small];
                    assert(listing[i] == rest[i]);
                    assert((listing[i]).0 != (listing[listing.len() - 1]).0);
                }
            }
        }
    }
}

/// Picks from a directory listing the names that end like an object file.
pub fn object_files(listing: &[(String, bool)]) -> (names: Vec<String>)
    ensures
        names.deep_view() == object_names(listing.deep_view()),
{
    let mut names: Vec<String> = Vec::new();
    let n = listing.len();
    let mut i: usize = 0;
    assert(listing.deep_view().take(0) =~= Seq::empty());
    while i < n
        invariant
            n == listing.len(),
            i <= n,
            names.deep_view() == object_names(listing.deep_view().take(i as int)),
        decreases n - i,
    {
        let ghost lv = listing.deep_view();
        let ghost before = names.deep_view();
        assert(lv.take(i + 1).drop_last() =~= lv.take(i as int));
        assert(lv.take(i + 1).last() == lv[i as int]);
        let entry = &listing[i];
        assert(entry.deep_view() == lv[i as int]);
        if has_suffix(entry.0.as_str(), ".o") {
            names.push(entry.0.clone());
            assert(names.deep_view() =~= before.push(lv[i as int].0));
        }
        i += 1;
    }
    assert(listing.deep_view().take(n as int) =~= listing.deep_view());
    names
}

/// Whether a name holds no slash.
pub open spec fn is_plain_name(name: Seq<char>) -> bool {
    forall|i: int| 0 <= i < name.len() ==> #[trigger] name[i] != '/'
}

/// In one directory, files of different names have different paths.
pub proof fn lemma_join_same_dir(dir: Seq<char>, a: Seq<char>, b: Seq<char>)
    requires
        path_join(dir, a) == path_join(dir, b),
    ensures
        a == b,
{
    let pa = path_join(dir, a);
    let pb = path_join(dir, b);
    assert(pa.len() == dir.len() + 1 + a.len());
    assert(pb.len() == dir.len() + 1 + b.len());
    assert forall|i: int| 0 <= i < a.len() implies a[i] == b[i] by {
        assert(pa[dir.len() + 1 + i] == a[i]);
        assert(pb[dir.len() + 1 + i] == b[i]);
    }
    assert(a =~= b);
}

/// Paths that are equal lie in the same directory under the same name, where
/// the names hold no slash.
pub proof fn lemma_join_same_path(d1: Seq<char>, n1: Seq<char>, d2: Seq<char>, n2: Seq<char>)
    requires
        is_plain_name(n1),
        is_plain_name(n2),
        path_join(d1, n1) == path_join(d2, n2),
    ensures
        n1 == n2,
        d1 == d2,
{
    let left = path_join(d1, n1);
    let right = path_join(d2, n2);
    let len = left.len() as int;
    assert(len == d1.len() + 1 + n1.len());
    assert(len == d2.len() + 1 + n2.len());
    assert(left[d1.len() as int] == '/');
    assert(right[d2.len() as int] == '/');
    if n1.len() < n2.len() {
        let at = d1.len() as int;
        assert(right[at] == n2[at - d2.len() - 1]);
    } else if n2.len() < n1.len() {
        let at = d2.len() as int;
        assert(left[at] == n1[at - d1.len() - 1]);
    }
    assert forall|i: int| 0 <= i < d1.len() implies d1[i] == d2[i] by {
        assert(left[i] == d1[i]);
        assert(right[i] == d2[i]);
    }
    assert(d1 =~= d2);
    lemma_join_same_dir(d1, n1, n2);
}

/// Strings that are equal behind the same ending are equal.
pub proof fn lemma_same_ending(a: Seq<char>, b: Seq<char>, ending: Seq<char>)
    requires
        a + ending == b + ending,
    ensures
        a == b,
{
    let x = a + ending;
    let y = b + ending;
    assert(x.len() == a.len() + ending.len());
    assert(y.len() == b.len() + ending.len());
    assert forall|i: int| 0 <= i < a.len() implies a[i] == b[i] by {
        assert(x[i] == a[i]);
        assert(y[i] == b[i]);
    }
    assert(a =~= b);
}

/// Whether `pat` stands in `s` at position `i`.
pub open spec fn occurs_at(s: Seq<char>, pat: Seq<char>, i: int) -> bool {
    0 <= i && i + pat.len() <= s.len() && s.subrange(i, i + pat.len()) == pat
}

/// Whether `pat` stands anywhere in `s`.
pub open spec fn contains_text(s: Seq<char>, pat: Seq<char>) -> bool {
    exists|i: int| occurs_at(s, pat, i)
}

/// `pat` stands in `s` at `i` and nowhere before.
pub open spec fn is_first_occurrence(s: Seq<char>, pat: Seq<char>, i: int) -> bool {
    occurs_at(s, pat, i) && forall|j: int| 0 <= j < i ==> !occurs_at(s, pat, j)
}

/// Where `pat` first stands in `s`; the length of `s` where it stands
/// nowhere.
pub open spec fn first_occurrence(s: Seq<char>, pat: Seq<char>) -> int {
    if contains_text(s, pat) {
        choose|i: int| is_first_occurrence(s, pat, i)
    } else {
        s.len() as int
    }
}

/// The part of `s` before the first `pat`; all of `s` where it holds none.
pub open spec fn before_text(s: Seq<char>, pat: Seq<char>) -> Seq<char> {
    s.subrange(0, first_occurrence(s, pat))
}

/// The part of `s` behind the first `pat`; nothing where it holds none.
pub open spec fn after_text(s: Seq<char>, pat: Seq<char>) -> Seq<char> {
    if contains_text(s, pat) {
        s.subrange(first_occurrence(s, pat) + pat.len(), s.len() as int)
    } else {
        Seq::empty()
    }
}

/// At most one position is that of the first occurrence.
pub proof fn lemma_first_occurrence(s: Seq<char>, pat: Seq<char>, i: int)
    requires
        is_first_occurrence(s, pat, i),
    ensures
        contains_text(s, pat),
        first_occurrence(s, pat) == i,
{
    let k = choose|k: int| is_first_occurrence(s, pat, k);
    if k < i {
        assert(!occurs_at(s, pat, k));
    } else if i < k {
        assert(!occurs_at(s, pat, i));
    }
}

/// Finds where `pat` first stands in `s`.
pub fn find_text(s: &str, pat: &str) -> (r: Option<usize>)
    ensures
        match r {
            Some(i) => is_first_occurrence(s@, pat@, i as int) && first_occurrence(s@, pat@) == i,
            None => !contains_text(s@, pat@),
        },
{
    let n = s.unicode_len();
    let m = pat.unicode_len();
    if m > n {
        return None;
    }
    let last = n - m;
    let mut i: usize = 0;
    loop
        invariant
            n == s@.len(),
            m == pat@.len(),
            last == n - m,
            i <= last,
            forall|j: int| 0 <= j < i ==> !occurs_at(s@, pat@, j),
        decreases last - i,
    {
        if str_eq(s.substring_char(i, i + m), pat) {
            proof {
                lemma_first_occurrence(s@, pat@, i as int);
            }
            return Some(i);
        }
        if i == last {
            return None;
        }
        i += 1;
    }
}

/// Splits `s` at the first `pat`: the part before it and the part behind it.
/// Without a `pat` in it, `s` is not split.
pub fn split_at_text(s: &str, pat: &str) -> (r: Option<(String, String)>)
    ensures
        match r {
            Some((head, tail)) => contains_text(s@, pat@) && head@ == before_text(s@, pat@)
                && tail@ == after_text(s@, pat@) && head@.len() + pat@.len() + tail@.len()
                == s@.len(),
            None => !contains_text(s@, pat@),
        },
{
    match find_text(s, pat) {
        None => None,
        Some(i) => {
            let n = s.unicode_len();
            let m = pat.unicode_len();
            Some((s.substring_char(0, i).to_owned(), s.substring_char(i + m, n).to_owned()))
        },
    }
}

/// The pieces of `s` between the characters `sep`, in order; one piece, `s`
/// itself, where it holds no `sep`.
pub open spec fn pieces(s: Seq<char>, sep: char) -> Seq<Seq<char>>
    decreases s.len(),
{
    let i = first_index_of(s, sep);
    if 0 <= i < s.len() {
        seq![s.subrange(0, i)] + pieces(s.subrange(i + 1, s.len() as int), sep)
    } else {
        seq![s]
    }
}

/// The pieces of `s` between commas.
pub open spec fn comma_pieces(s: Seq<char>) -> Seq<Seq<char>> {
    pieces(s, ',')
}

/// Cuts `s` at every `sep`.
pub fn split_on(s: &str, sep: char) -> (parts: Vec<String>)
    ensures
        parts.deep_view() == pieces(s@, sep),
{
    let mut parts: Vec<String> = Vec::new();
    let n = s.unicode_len();
    let mut start: usize = 0;
    let ghost mut done: Seq<Seq<char>> = Seq::empty();
    assert(s@.subrange(0, n as int) =~= s@);
    loop
        invariant_except_break
            n == s@.len(),
            start <= n,
            parts.deep_view() == done,
            pieces(s@, sep) == done + pieces(s@.subrange(start as int, n as int), sep),
        ensures
            parts.deep_view() == pieces(s@, sep),
        decreases n - start,
    {
        let rest = s.substring_char(start, n);
        let i = find_char(rest, sep);
        proof {
            lemma_first_index_of(rest@, sep);
        }
        let ghost before = parts.deep_view();
        if i < n - start {
            parts.push(rest.substring_char(0, i).to_owned());
            proof {
                let r = rest@;
                assert(parts.deep_view() =~= before.push(r.subrange(0, i as int)));
                assert(r.subrange(i + 1, r.len() as int) =~= s@.subrange(
                    start + i + 1,
                    n as int,
                ));
                done = done.push(r.subrange(0, i as int));
                assert(pieces(s@, sep) =~= done + pieces(
                    s@.subrange(start + i + 1, n as int),
                    sep,
                ));
            }
            start = start + i + 1;
        } else {
            parts.push(rest.to_owned());
            proof {
                assert(parts.deep_view() =~= before.push(rest@));
                assert(pieces(rest@, sep) =~= seq![rest@]);
                assert(parts.deep_view() =~= pieces(s@, sep));
            }
            break;
        }
    }
    parts
}

/// Cuts `s` at every comma.
pub fn split_commas(s: &str) -> (parts: Vec<String>)
    ensures
        parts.deep_view() == comma_pieces(s@),
{
    split_on(s, ',')
}

/// Copies a list of strings.
pub fn copy_strings(items: &Vec<String>) -> (r: Vec<String>)
    ensures
        r.deep_view() == items.deep_view(),
{
    let mut r: Vec<String> = Vec::new();
    let n = items.len();
    let mut i: usize = 0;
    while i < n
        invariant
            n == items.len(),
            i <= n,
            r.deep_view() == items.deep_view().take(i as int),
        decreases n - i,
    {
        let ghost before = r.deep_view();
        r.push(items[i].clone());
        assert(r.deep_view() =~= before.push(items.deep_view()[i as int]));
        assert(items.deep_view().take(i + 1) =~= before.push(items.deep_view()[i as int]));
        i += 1;
    }
    assert(items.deep_view().take(n as int) =~= items.deep_view());
    r
}

/// `n` spaces.
pub open spec fn spaces(n: nat) -> Seq<char> {
    Seq::new(n, |i: int| ' ')
}

/// `s`, filled up with spaces on the right to `width` characters; a longer
/// `s` stays as it is.
pub open spec fn pad_to(s: Seq<char>, width: nat) -> Seq<char> {
    if s.len() >= width {
        s
    } else {
        s + spaces((width - s.len()) as nat)
    }
}

/// Fills `s` up with spaces to a column `width` characters wide.
pub fn pad_right(s: &str, width: usize) -> (r: String)
    ensures
        r@ == pad_to(s@, width as nat),
{
    let n = s.unicode_len();
    let mut r = s.to_owned();
    let mut k: usize = n;
    proof {
        reveal_strlit(" ");
    }
    assert(r@ =~= s@ + spaces(0));
    while k < width
        invariant
            n == s@.len(),
            n <= k,
            n < width ==> k <= width,
            n >= width ==> k == n,
            r@ == s@ + spaces((k - n) as nat),
            " "@.len() == 1,
            " "@[0] == ' ',
        decreases width - k,
    {
        r.append(" ");
        assert(r@ =~= s@ + spaces((k + 1 - n) as nat));
        k += 1;
    }
    assert(r@ =~= pad_to(s@, width as nat));
    r
}

/// The pieces of `s` between the occurrences of `pat`, in order. An empty
/// `pat` stands between every two characters, and before the first and behind
/// the last.
pub open spec fn text_pieces(s: Seq<char>, pat: Seq<char>) -> Seq<Seq<char>>
    decreases s.len(),
{
    if pat.len() == 0 {
        seq![Seq::<char>::empty()] + Seq::new(s.len(), |i: int| seq![s[i]]) + seq![
            Seq::<char>::empty(),
        ]
    } else if contains_text(s, pat) && after_text(s, pat).len() < s.len() {
        seq![before_text(s, pat)] + text_pieces(after_text(s, pat), pat)
    } else {
        seq![s]
    }
}

/// Cuts `s` at every occurrence of `pat`.
pub fn split_text(s: &str, pat: &str) -> (parts: Vec<String>)
    ensures
        parts.deep_view() == text_pieces(s@, pat@),
{
    let mut parts: Vec<String> = Vec::new();
    let m = pat.unicode_len();
    if m == 0 {
        let n = s.unicode_len();
        parts.push(String::new());
        let ghost chars = Seq::new(s@.len(), |i: int| seq![s@[i]]);
        let mut i: usize = 0;
        assert(parts.deep_view() =~= seq![Seq::<char>::empty()] + chars.take(0));
        while i < n
            invariant
                n == s@.len(),
                i <= n,
                chars == Seq::new(s@.len(), |i: int| seq![s@[i]]),
                parts.deep_view() == seq![Seq::<char>::empty()] + chars.take(i as int),
            decreases n - i,
        {
            let ghost before = parts.deep_view();
            parts.push(s.substring_char(i, i + 1).to_owned());
            assert(s@.subrange(i as int, i + 1) =~= seq![s@[i as int]]);
            assert(parts.deep_view() =~= before.push(chars[i as int]));
            assert(parts.deep_view() =~= seq![Seq::<char>::empty()] + chars.take(i + 1));
            i += 1;
        }
        let ghost before = parts.deep_view();
        parts.push(String::new());
        assert(chars.take(n as int) =~= chars);
        assert(parts.deep_view() =~= before.push(Seq::<char>::empty()));
        assert(parts.deep_view() =~= text_pieces(s@, pat@));
        return parts;
    }
    let mut rest = s.to_owned();
    let ghost mut done: Seq<Seq<char>> = Seq::empty();
    loop
        invariant_except_break
            m == pat@.len(),
            m > 0,
            parts.deep_view() == done,
            text_pieces(s@, pat@) == done + text_pieces(rest@, pat@),
        ensures
            parts.deep_view() == text_pieces(s@, pat@),
        decreases rest@.len(),
    {
        let ghost before = parts.deep_view();
        let ghost rv = rest@;
        match split_at_text(rest.as_str(), pat) {
            Some((head, tail)) => {
                parts.push(head);
                proof {
                    assert(parts.deep_view() =~= before.push(before_text(rv, pat@)));
                    done = done.push(before_text(rv, pat@));
                    assert(text_pieces(s@, pat@) =~= done + text_pieces(tail@, pat@));
                }
                rest = tail;
            },
            None => {
                parts.push(rest);
                proof {
                    assert(parts.deep_view() =~= before.push(rv));
                    assert(text_pieces(rv, pat@) =~= seq![rv]);
                    assert(parts.deep_view() =~= text_pieces(s@, pat@));
                }
                break;
            },
        }
    }
    parts
}

/// The parts with `sep` between each two.
pub open spec fn joined(parts: Seq<Seq<char>>, sep: Seq<char>) -> Seq<char>
    decreases parts.len(),
{
    if parts.len() == 0 {
        Seq::empty()
    } else if parts.len() == 1 {
        parts[0]
    } else {
        joined(parts.drop_last(), sep) + sep + parts.last()
    }
}

/// Puts `sep` between each two parts.
pub fn join_with(parts: &Vec<String>, sep: &str) -> (r: String)
    ensures
        r@ == joined(parts.deep_view(), sep@),
{
    let mut r = String::new();
    let n = parts.len();
    let mut i: usize = 0;
    assert(parts.deep_view().take(0) =~= Seq::empty());
    while i < n
        invariant
            n == parts.len(),
            i <= n,
            r@ == joined(parts.deep_view().take(i as int), sep@),
        decreases n - i,
    {
        let ghost pv = parts.deep_view();
        proof {
            assert(pv.take(i + 1).drop_last() =~= pv.take(i as int));
            assert(pv.take(i + 1).last() == pv[i as int]);
        }
        if i > 0 {
            r.append(sep);
        }
        r.append(parts[i].as_str());
        proof {
            if i == 0 {
                assert(pv.take(1)[0] == pv[0]);
                assert(r@ =~= pv[0]);
            }
        }
        i += 1;
    }
    assert(parts.deep_view().take(n as int) =~= parts.deep_view());
    r
}

} // verus!
