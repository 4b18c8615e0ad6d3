//! Safe file names, and free paths, for downloaded attachments.
use vstd::prelude::*;
use crate::attachments::opt_view;
use crate::text::{
    chars_of, dec, extend_chars, join_path, join_path_chars, leading_count, leading_ws,
    lemma_dec_digits, lemma_leading_count, lemma_leading_count_eq, lemma_trim_noop,
    lemma_trim_trimmed, owned, push_decimal, rfind_char, rfind_char_index, rfind_char_spec_bound,
    rsplit_once, slice_chars, string_of, trailing_ws, trim, trim_chars, trim_start_char,
    trim_start_char_chars,
};

verus! {

/// Replaces a path separator or NUL by `_`.
pub open spec fn scrub(c: char) -> char {
    if c == '/' || c == '\\' || c == '\0' {
        '_'
    } else {
        c
    }
}

/// The name after trimming and replacing separators, before its leading
/// dots and spaces are stripped.
pub open spec fn scrubbed(name: Seq<char>) -> Seq<char> {
    trim(name).map_values(|c: char| scrub(c))
}

/// The name after stripping its leading dots and trimming again.
pub open spec fn stripped(name: Seq<char>) -> Seq<char> {
    trim(trim_start_char(scrubbed(name), '.'))
}

/// The text `"attachment"`.
pub open spec fn attachment_word() -> Seq<char> {
    seq!['a', 't', 't', 'a', 'c', 'h', 'm', 'e', 'n', 't']
}

/// A name that would not name an entry of the directory it is joined to:
/// empty, `.` or `..`.
pub open spec fn is_traversal(s: Seq<char>) -> bool {
    s.len() == 0 || s == seq!['.'] || s == seq!['.', '.']
}

/// What `sanitize(name)` returns: the trimmed name with `/`, `\` and NUL
/// replaced by `_`, its leading dots stripped and trimmed again, and
/// `"attachment"` when that leaves nothing, `.` or `..`.
pub open spec fn sanitized(name: Seq<char>) -> Seq<char> {
    if is_traversal(stripped(name)) {
        attachment_word()
    } else {
        stripped(name)
    }
}

/// Stem and extension of a file name: split at the last `.` when there
/// is a non-empty stem before it (the extension keeps its dot).
pub open spec fn stem_ext(name: Seq<char>) -> (Seq<char>, Seq<char>) {
    match rsplit_once(name, '.') {
        Some(p) => if p.0.len() > 0 {
            (p.0, seq!['.'] + p.1)
        } else {
            (name, Seq::empty())
        },
        None => (name, Seq::empty()),
    }
}

/// The `n`-th name tried for `name`: `name` itself, then
/// `"{stem} ({n}){ext}"`.
pub open spec fn candidate_name(name: Seq<char>, n: nat) -> Seq<char> {
    if n == 0 {
        name
    } else {
        stem_ext(name).0 + seq![' ', '('] + dec(n) + seq![')'] + stem_ext(name).1
    }
}

/// The `n`-th path tried for `name` inside `dir`.
pub open spec fn candidate_path(dir: Seq<char>, name: Seq<char>, n: nat) -> Seq<char> {
    join_path(dir, candidate_name(name, n))
}

/// Number of candidates tried before giving up.
pub open spec fn max_candidates() -> nat {
    1024
}

/// Index of the first `false` in `t`, or `-1`.
pub open spec fn first_false(t: Seq<bool>) -> int
    decreases t.len(),
{
    if t.len() == 0 {
        -1
    } else if !t[0] {
        0
    } else if first_false(t.drop_first()) < 0 {
        -1
    } else {
        first_false(t.drop_first()) + 1
    }
}

/// The path chosen when `taken[k]` tells whether candidate `k` already
/// exists: the first free candidate among the first 1024, or none when
/// all of those are taken.
pub open spec fn chosen_path(dir: Seq<char>, name: Seq<char>, taken: Seq<bool>) -> Option<Seq<char>> {
    let limit = if taken.len() < max_candidates() {
        taken.len()
    } else {
        max_candidates()
    };
    let k = first_false(taken.take(limit as int));
    if k < 0 {
        None
    } else {
        Some(candidate_path(dir, name, k as nat))
    }
}

/// `first_false` is `-1` or the index of a `false` preceded only by
/// `true`s; when it is `-1` every entry is `true`.
proof fn lemma_first_false(t: Seq<bool>)
    ensures
        -1 <= first_false(t) < t.len(),
        first_false(t) >= 0 ==> !t[first_false(t)],
        forall|j: int| 0 <= j < t.len() && (first_false(t) < 0 || j < first_false(t)) ==> #[trigger] t[j],
    decreases t.len(),
{
    if t.len() > 0 && t[0] {
        lemma_first_false(t.drop_first());
        assert forall|j: int| 0 <= j < t.len() && (first_false(t) < 0 || j < first_false(t)) implies #[trigger] t[j] by {
            if j > 0 {
                assert(t[j] == t.drop_first()[j - 1]);
            }
        }
    }
}

/// `first_false` is the index `i` when everything before `i` is `true`
/// and `t[i]` is `false` (or `-1` when `i` is the length).
proof fn lemma_first_false_eq(t: Seq<bool>, i: int)
    requires
        0 <= i <= t.len(),
        forall|j: int| 0 <= j < i ==> #[trigger] t[j],
        i < t.len() ==> !t[i],
    ensures
        first_false(t) == (if i < t.len() { i } else { -1 }),
    decreases i,
{
    if i > 0 {
        assert(t[0]);
        assert forall|j: int| 0 <= j < i - 1 implies #[trigger] t.drop_first()[j] by {
            assert(t.drop_first()[j] == t[j + 1]);
        }
        if i - 1 < t.len() - 1 {
            assert(t.drop_first()[i - 1] == t[i]);
        }
        lemma_first_false_eq(t.drop_first(), i - 1);
    }
}

/// A sanitized name is never empty, `.` or `..`, holds no `/`, `\\` or
/// NUL and has no whitespace at either end; joined to a directory, it
/// names an entry of that directory.
pub proof fn lemma_sanitized_is_safe(name: Seq<char>)
    ensures
        !is_traversal(sanitized(name)),
        forall|i: int|
            0 <= i < sanitized(name).len() ==> {
                let c = #[trigger] sanitized(name)[i];
                c != '/' && c != '\\' && c != '\0'
            },
        leading_ws(sanitized(name)) == 0,
        trailing_ws(sanitized(name)) == 0,
{
    let t0 = trim(name);
    let sc = scrubbed(name);
    let t = trim_start_char(sc, '.');
    let r = stripped(name);
    lemma_leading_count(sc, '.');
    lemma_trim_trimmed(t);
    assert forall|i: int| 0 <= i < r.len() implies {
        let c = #[trigger] r[i];
        c != '/' && c != '\\' && c != '\0'
    } by {
        let k = i + leading_ws(t);
        assert(r[i] == t[k]);
        let j = k + leading_count(sc, '.');
        assert(t[k] == sc[j]);
        assert(sc[j] == scrub(t0[j]));
    }
    if is_traversal(r) {
        let w = attachment_word();
        assert(leading_ws(w) == 0);
        assert(trailing_ws(w) == 0);
        assert(w[0] == 'a');
        assert(w.len() == 10);
    }
}

/// Sanitizing a sanitized name changes nothing, as long as it does not
/// start with a dot (`". .a"` sanitizes to `".a"`, which sanitizes to
/// `"a"`).
pub proof fn lemma_sanitize_idempotent(name: Seq<char>)
    requires
        sanitized(name)[0] != '.',
    ensures
        sanitized(sanitized(name)) == sanitized(name),
{
    let r = sanitized(name);
    lemma_sanitized_is_safe(name);
    lemma_trim_noop(r);
    assert(scrubbed(r) =~= r);
    lemma_leading_count_eq(r, '.', 0);
    assert(r.skip(0) == r);
    assert(trim_start_char(r, '.') == r);
    assert(stripped(r) == r);
}

/// Every path tried for a name without `/` lies directly inside `dir`:
/// it is `dir`, a separator where one is missing, and a file name
/// without `/`.
pub proof fn lemma_candidate_in_dir(dir: Seq<char>, name: Seq<char>, k: nat)
    requires
        forall|i: int| 0 <= i < name.len() ==> #[trigger] name[i] != '/',
    ensures
        forall|i: int|
            0 <= i < candidate_name(name, k).len() ==> #[trigger] candidate_name(name, k)[i]
                != '/',
        candidate_path(dir, name, k) == (if dir.len() == 0 || dir.last() == '/' {
            dir
        } else {
            dir.push('/')
        }) + candidate_name(name, k),
{
    let f = candidate_name(name, k);
    if k > 0 {
        lemma_dec_digits(k);
        rfind_char_spec_bound(name, '.');
        let (stem, ext) = stem_ext(name);
        assert forall|i: int| 0 <= i < stem.len() implies #[trigger] stem[i] != '/' by {
            assert(stem[i] == name[i]);
        }
        assert forall|i: int| 0 <= i < ext.len() implies #[trigger] ext[i] != '/' by {
            if ext != Seq::<char>::empty() && i > 0 {
                let j = rfind_char(name, '.');
                assert(ext[i] == name[j + i]);
            }
        }
        let d = dec(k);
        assert forall|i: int| 0 <= i < f.len() implies #[trigger] f[i] != '/' by {
            let a = stem.len() as int;
            let b = a + 2 + d.len();
            if i < a {
                assert(f[i] == stem[i]);
            } else if i < a + 2 {
            } else if i < b {
                assert(f[i] == d[i - a - 2]);
            } else if i == b {
            } else {
                assert(f[i] == ext[i - b - 1]);
            }
        }
    }
    if f.len() > 0 {
        assert(f[0] != '/');
    }
    if !(dir.len() == 0 || dir.last() == '/') {
        assert(dir + seq!['/'] + f =~= dir.push('/') + f);
    }
}

/// The chosen path is the first free candidate among the first 1024: it
/// is free and every earlier one is taken. When none of them is free,
/// no path is chosen.
pub proof fn lemma_chosen_first_free(dir: Seq<char>, name: Seq<char>, taken: Seq<bool>)
    ensures
        (exists|j: int| 0 <= j < taken.len() && j < max_candidates() && !#[trigger] taken[j])
            ==> exists|k: int|
            0 <= k < taken.len() && k < max_candidates() && !taken[k] && (forall|j: int|
                0 <= j < k ==> #[trigger] taken[j]) && chosen_path(dir, name, taken) == Some(
                #[trigger] candidate_path(dir, name, k as nat),
            ),
        !(exists|j: int| 0 <= j < taken.len() && j < max_candidates() && !#[trigger] taken[j])
            ==> chosen_path(dir, name, taken) is None,
{
    let limit = if taken.len() < max_candidates() {
        taken.len()
    } else {
        max_candidates()
    };
    let t = taken.take(limit as int);
    lemma_first_false(t);
    let k = first_false(t);
    if exists|j: int| 0 <= j < taken.len() && j < max_candidates() && !#[trigger] taken[j] {
        let j = choose|j: int| 0 <= j < taken.len() && j < max_candidates() && !#[trigger] taken[j];
        assert(t[j] == taken[j]);
        assert(k >= 0);
        assert(!taken[k]);
        assert forall|i: int| 0 <= i < k implies #[trigger] taken[i] by {
            assert(t[i] == taken[i]);
        }
        assert(chosen_path(dir, name, taken) == Some(candidate_path(dir, name, k as nat)));
    } else {
        if k >= 0 {
            assert(t[k] == taken[k]);
        }
    }
}

/// Strips path separators and parent traversals from an attachment's
/// file name so that a hostile header cannot name a path outside the
/// download directory: the result is never empty, `.` or `..` (those
/// become `"attachment"`), and holds no separator.
pub fn sanitize(name: &str) -> (r: String)
    ensures
        r@ == sanitized(name@),
        r@ != seq!['.'] && r@ != seq!['.', '.'],
{
    let chars = chars_of(name);
    let trimmed = trim_chars(&chars);
    let mut cleaned: Vec<char> = Vec::new();
    let mut i: usize = 0;
    while i < trimmed.len()
        invariant
            i <= trimmed.len(),
            trimmed@ == trim(name@),
            cleaned@ == trimmed@.take(i as int).map_values(|c: char| scrub(c)),
        decreases trimmed.len() - i,
    {
        let c = trimmed[i];
        let d = if c == '/' || c == '\\' || c == '\0' {
            '_'
        } else {
            c
        };
        cleaned.push(d);
        i = i + 1;
        assert(trimmed@.take(i as int).map_values(|c: char| scrub(c)) =~= trimmed@.take(
            i - 1,
        ).map_values(|c: char| scrub(c)).push(scrub(trimmed@[i - 1])));
    }
    assert(trimmed@.take(trimmed.len() as int) == trimmed@);
    let undotted = trim_start_char_chars(&cleaned, '.');
    let result = trim_chars(&undotted);
    proof {
        lemma_sanitized_is_safe(name@);
    }
    let n = result.len();
    let traversal = n == 0 || (result[0] == '.' && (n == 1 || (n == 2 && result[1] == '.')));
    assert(traversal == is_traversal(result@)) by {
        if n == 1 && result[0] == '.' {
            assert(result@ =~= seq!['.']);
        }
        if n == 2 && result[0] == '.' && result[1] == '.' {
            assert(result@ =~= seq!['.', '.']);
        }
    }
    if traversal {
        let r = owned("attachment");
        proof {
            reveal_strlit("attachment");
        }
        assert(r@ =~= attachment_word());
        assert(r@.len() == 10);
        r
    } else {
        assert(result@ == stripped(name@));
        string_of(&result)
    }
}

/// Whether something exists at `path` on disk.
///
/// Trusted: calls `std::path::Path::exists`. The answer depends on the
/// file system at the time of the call, so nothing is stated of it.
#[verifier::external_body]
fn path_exists(path: &String) -> bool {
    std::path::Path::new(path.as_str()).exists()
}

/// The `n`-th candidate path for `name` inside `dir`.
pub fn candidate(dir: &Vec<char>, name: &Vec<char>, n: u64) -> (r: Vec<char>)
    ensures
        r@ == candidate_path(dir@, name@, n as nat),
{
    if n == 0 {
        return join_path_chars(dir, name);
    }
    let mut file: Vec<char> = Vec::new();
    let ext_split = match rfind_char_index(name, '.') {
        Some(i) => if i > 0 {
            Some(i)
        } else {
            None
        },
        None => None,
    };
    proof {
        rfind_char_spec_bound(name@, '.');
    }
    let len = name.len();
    match ext_split {
        Some(i) => {
            assert(i < len);
            let stem = slice_chars(name, 0, i);
            let ext = slice_chars(name, i + 1, name.len());
            extend_chars(&mut file, &stem);
            file.push(' ');
            file.push('(');
            push_decimal(&mut file, n);
            file.push(')');
            file.push('.');
            extend_chars(&mut file, &ext);
            assert(stem@ == name@.take(i as int));
            assert(ext@ == name@.skip(i + 1));
            assert(file@ =~= candidate_name(name@, n as nat));
        },
        None => {
            extend_chars(&mut file, name);
            file.push(' ');
            file.push('(');
            push_decimal(&mut file, n);
            file.push(')');
            assert(file@ =~= candidate_name(name@, n as nat));
        },
    }
    join_path_chars(dir, &file)
}

/// The path that `unique_path` settles on when `taken[k]` tells whether
/// its `k`-th candidate already exists; `None` when the first 1024 are all
/// taken.
pub fn select_unique_path(dir: &str, name: &str, taken: &Vec<bool>) -> (r: Option<String>)
    ensures
        opt_view(r) == chosen_path(dir@, name@, taken@),
{
    let d = chars_of(dir);
    let nm = chars_of(name);
    let limit: usize = if taken.len() < 1024 {
        taken.len()
    } else {
        1024
    };
    let ghost t = taken@.take(limit as int);
    let mut k: usize = 0;
    while k < limit && taken[k]
        invariant
            k <= limit <= taken.len(),
            limit <= 1024,
            t == taken@.take(limit as int),
            forall|j: int| 0 <= j < k ==> #[trigger] t[j],
        decreases limit - k,
    {
        assert(t[k as int] == taken@[k as int]);
        k = k + 1;
    }
    proof {
        if k < limit {
            assert(t[k as int] == taken@[k as int]);
        }
        lemma_first_false_eq(t, k as int);
    }
    if k < limit {
        Some(string_of(&candidate(&d, &nm, k as u64)))
    } else {
        None
    }
}

/// Returns a path inside `dir` that does not exist yet, suffixing
/// `(1)`, `(2)`, … to the stem of `name` when needed; `None` when the
/// first 1024 candidates all exist.
///
/// The disk is probed candidate by candidate until one is free. Which
/// candidates exist depends on the disk, so the contract states the
/// choice over the answers of the probes: the result is what
/// [`select_unique_path`] chooses for them, the first candidate that was
/// found free, every earlier one having been found taken.
pub fn unique_path(dir: &str, name: &str) -> (r: Option<String>)
    ensures
        exists|taken: Seq<bool>|
            {
                &&& taken.len() <= max_candidates()
                &&& forall|j: int| 0 <= j < taken.len() - 1 ==> #[trigger] taken[j]
                &&& (taken.len() < max_candidates() ==> taken.len() > 0 && !taken.last())
                &&& opt_view(r) == #[trigger] chosen_path(dir@, name@, taken)
            },
{
    let d = chars_of(dir);
    let nm = chars_of(name);
    let mut taken: Vec<bool> = Vec::new();
    let mut n: u64 = 0;
    while n < 1024
        invariant_except_break
            taken.len() == n,
            forall|j: int| 0 <= j < taken.len() ==> #[trigger] taken@[j],
        invariant
            n <= 1024,
            d@ == dir@,
            nm@ == name@,
        ensures
            taken.len() <= 1024,
            forall|j: int| 0 <= j < taken.len() - 1 ==> #[trigger] taken@[j],
            taken.len() < 1024 ==> taken.len() > 0 && !taken@.last(),
        decreases 1024 - n,
    {
        let c = candidate(&d, &nm, n);
        let path = string_of(&c);
        let exists = path_exists(&path);
        taken.push(exists);
        if !exists {
            break;
        }
        n = n + 1;
    }
    select_unique_path(dir, name, &taken)
}

} // verus!
