//! Name and path-text logic of the SFTP commands: the local file name used
//! for an edited remote file, the remote path of an upload, and the numeric
//! connect-timeout setting.

use vstd::prelude::*;
use vstd::string::*;
use crate::error::{AppError, ErrorDetail, ErrorKind, error_is, detail_is_empty};
use crate::text::str_eq;

verus! {

/// The text after the last `/` of `s` (all of `s` when it holds no `/`).
pub open spec fn last_segment(s: Seq<char>) -> Seq<char>
    decreases s.len(),
{
    if s.len() == 0 {
        s
    } else if s.last() == '/' {
        Seq::empty()
    } else {
        last_segment(s.drop_last()).push(s.last())
    }
}

/// A name that must not be used as a local file name: empty, `.`, `..`, or
/// holding a path separator.
pub open spec fn is_unsafe_name(n: Seq<char>) -> bool {
    ||| n.len() == 0
    ||| n == seq!['.']
    ||| n == seq!['.', '.']
    ||| n.contains('/')
    ||| n.contains('\\')
}

/// The fallback file name.
pub open spec fn fallback_name() -> Seq<char> {
    seq!['f', 'i', 'l', 'e']
}

/// The local file name chosen for the remote file at `p`.
pub open spec fn remote_filename_spec(p: Seq<char>) -> Seq<char> {
    let seg = last_segment(p);
    if is_unsafe_name(seg) {
        fallback_name()
    } else {
        seg
    }
}

/// `s` with every trailing `/` removed.
pub open spec fn trim_trailing_slashes(s: Seq<char>) -> Seq<char>
    decreases s.len(),
{
    if s.len() > 0 && s.last() == '/' {
        trim_trailing_slashes(s.drop_last())
    } else {
        s
    }
}

/// The remote path that a file named `name` gets when uploaded into `dir`.
pub open spec fn upload_path_spec(dir: Seq<char>, name: Seq<char>) -> Seq<char> {
    trim_trailing_slashes(dir) + seq!['/'] + name
}

/// An ASCII decimal digit.
pub open spec fn is_digit(c: char) -> bool {
    '0' <= c && c <= '9'
}

/// The value of a string of decimal digits.
pub open spec fn digits_value(s: Seq<char>) -> int
    decreases s.len(),
{
    if s.len() == 0 {
        0
    } else {
        digits_value(s.drop_last()) * 10 + (s.last() as int - '0' as int)
    }
}

/// `s` without one leading `+`.
pub open spec fn unsigned_digits(s: Seq<char>) -> Seq<char> {
    if s.len() > 0 && s[0] == '+' {
        s.drop_first()
    } else {
        s
    }
}

/// How `u64::from_str` reads `s`: an optional `+`, then one or more decimal
/// digits whose value fits in a `u64`.
pub open spec fn parse_u64_spec(s: Seq<char>) -> Option<u64> {
    let d = unsigned_digits(s);
    if d.len() > 0 && (forall|i: int| 0 <= i < d.len() ==> is_digit(#[trigger] d[i]))
        && digits_value(d) <= u64::MAX {
        Some(digits_value(d) as u64)
    } else {
        None
    }
}

/// The connect timeout for a stored setting, `default` where the setting is
/// missing or not a number.
pub open spec fn connect_timeout_spec(setting: Option<Seq<char>>, default: u64) -> u64 {
    match setting {
        Some(v) => match parse_u64_spec(v) {
            Some(x) => x,
            None => default,
        },
        None => default,
    }
}

proof fn lemma_last_segment_from(s: Seq<char>, start: int)
    requires
        0 <= start <= s.len(),
        start == 0 || s[start - 1] == '/',
        forall|j: int| start <= j < s.len() ==> s[j] != '/',
    ensures
        last_segment(s) == s.subrange(start, s.len() as int),
    decreases s.len(),
{
    if s.len() == start {
        if start == 0 {
            assert(s.subrange(0, 0) =~= s);
        } else {
            assert(s.subrange(start, start) =~= Seq::<char>::empty());
        }
    } else {
        lemma_last_segment_from(s.drop_last(), start);
        assert(s.drop_last().subrange(start, s.len() - 1).push(s.last()) =~= s.subrange(
            start,
            s.len() as int,
        ));
    }
}

proof fn lemma_trim_prefix(s: Seq<char>, end: int)
    requires
        0 <= end < s.len(),
        s[end] == '/',
        trim_trailing_slashes(s.take(end + 1)) == trim_trailing_slashes(s),
    ensures
        trim_trailing_slashes(s.take(end)) == trim_trailing_slashes(s),
{
    assert(s.take(end + 1).drop_last() =~= s.take(end));
}

/// A trimmed directory never ends with `/`, so an upload path holds exactly
/// one `/` between the directory and the file name, and ends with `/` and
/// the name.
pub proof fn lemma_upload_path_shape(dir: Seq<char>, name: Seq<char>)
    ensures
        trim_trailing_slashes(dir).len() == 0 || trim_trailing_slashes(dir).last() != '/',
        upload_path_spec(dir, name).len() == trim_trailing_slashes(dir).len() + 1 + name.len(),
        upload_path_spec(dir, name).subrange(
            trim_trailing_slashes(dir).len() as int,
            upload_path_spec(dir, name).len() as int,
        ) == seq!['/'] + name,
    decreases dir.len(),
{
    if dir.len() > 0 && dir.last() == '/' {
        lemma_upload_path_shape(dir.drop_last(), name);
    }
    let t = trim_trailing_slashes(dir);
    assert((t + seq!['/'] + name).subrange(t.len() as int, (t + seq!['/'] + name).len() as int)
        =~= seq!['/'] + name);
}

proof fn lemma_trim_is_take(s: Seq<char>, k: int)
    requires
        0 <= k <= s.len(),
        forall|j: int| k <= j < s.len() ==> s[j] == '/',
        k == 0 || s[k - 1] != '/',
    ensures
        trim_trailing_slashes(s) == s.take(k),
    decreases s.len(),
{
    if s.len() > k {
        assert(s.drop_last().take(k) =~= s.take(k));
        lemma_trim_is_take(s.drop_last(), k);
    } else {
        assert(s.take(k) =~= s);
        if k > 0 {
            assert(s.last() == s[k - 1]);
        }
    }
}

/// The local name of a remote file is its last `/`-segment whenever that
/// segment is not empty, `.` or `..` and holds no `\`; otherwise it is
/// `file`.
pub proof fn lemma_remote_filename_keeps_segment(p: Seq<char>, i: int)
    requires
        0 <= i < p.len(),
        i == 0 || p[i - 1] == '/',
        forall|j: int| i <= j < p.len() ==> p[j] != '/',
    ensures
        (p.subrange(i, p.len() as int) != seq!['.'] && p.subrange(i, p.len() as int) != seq![
            '.',
            '.',
        ] && !p.subrange(i, p.len() as int).contains('\\')) ==> remote_filename_spec(p)
            == p.subrange(i, p.len() as int),
        !(p.subrange(i, p.len() as int) != seq!['.'] && p.subrange(i, p.len() as int) != seq![
            '.',
            '.',
        ] && !p.subrange(i, p.len() as int).contains('\\')) ==> remote_filename_spec(p)
            == seq!['f', 'i', 'l', 'e'],
{
    lemma_last_segment_from(p, i);
    let seg = p.subrange(i, p.len() as int);
    assert(!seg.contains('/')) by {
        if seg.contains('/') {
            let k = choose|k: int| 0 <= k < seg.len() && seg[k] == '/';
            assert(p[i + k] == '/');
        }
    }
}

/// The remote path of an upload is the directory with its trailing slashes
/// removed, character for character, then one `/`, then the file name.
pub proof fn lemma_upload_path_keeps_dir(dir: Seq<char>, name: Seq<char>, k: int)
    requires
        0 <= k <= dir.len(),
        forall|j: int| k <= j < dir.len() ==> dir[j] == '/',
        k == 0 || dir[k - 1] != '/',
    ensures
        upload_path_spec(dir, name) == dir.take(k) + seq!['/'] + name,
        upload_path_spec(dir, name).take(k) == dir.take(k),
{
    lemma_trim_is_take(dir, k);
    assert((dir.take(k) + seq!['/'] + name).take(k) =~= dir.take(k));
}

/// Whether `s` holds the character `c`.
pub fn str_contains_char(s: &str, c: char) -> (r: bool)
    ensures
        r == s@.contains(c),
{
    let n = s.unicode_len();
    let mut i: usize = 0;
    while i < n
        invariant
            n == s@.len(),
            i <= n,
            forall|j: int| 0 <= j < i ==> s@[j] != c,
        decreases n - i,
    {
        if s.get_char(i) == c {
            return true;
        }
        i = i + 1;
    }
    false
}

fn is_unsafe_str(seg: &str) -> (r: bool)
    ensures
        r == is_unsafe_name(seg@),
{
    proof {
        reveal_strlit(".");
        reveal_strlit("..");
        assert("."@ =~= seq!['.']);
        assert(".."@ =~= seq!['.', '.']);
    }
    let n = seg.unicode_len();
    n == 0 || str_eq(seg, ".") || str_eq(seg, "..") || str_contains_char(seg, '/')
        || str_contains_char(seg, '\\')
}

/// The local file name for the remote file at `remote_path`: its last
/// `/`-separated segment, or `file` where that segment is empty, `.`, `..`
/// or holds a path separator.
pub fn remote_filename(remote_path: &str) -> (r: String)
    ensures
        forall|i: int|
            #![trigger remote_path@.subrange(i, remote_path@.len() as int)]
            0 <= i <= remote_path@.len() && (i == 0 || remote_path@[i - 1] == '/') && (forall|j: int|
                i <= j < remote_path@.len() ==> remote_path@[j] != '/') && i < remote_path@.len()
                && remote_path@.subrange(i, remote_path@.len() as int) != seq!['.']
                && remote_path@.subrange(i, remote_path@.len() as int) != seq!['.', '.'] && !remote_path@.subrange(
                i,
                remote_path@.len() as int,
            ).contains('\\') ==> r@ == remote_path@.subrange(i, remote_path@.len() as int),
        r@ == remote_filename_spec(remote_path@),
        !is_unsafe_name(r@),
{
    let n = remote_path.unicode_len();
    let mut start: usize = 0;
    let mut i: usize = 0;
    while i < n
        invariant
            n == remote_path@.len(),
            start <= i <= n,
            start == 0 || remote_path@[start - 1] == '/',
            forall|j: int| start <= j < i ==> remote_path@[j] != '/',
        decreases n - i,
    {
        if remote_path.get_char(i) == '/' {
            start = i + 1;
        }
        i = i + 1;
    }
    proof {
        lemma_last_segment_from(remote_path@, start as int);
        let p = remote_path@;
        assert forall|i: int|
            #![trigger p.subrange(i, p.len() as int)]
            0 <= i <= p.len() && (i == 0 || p[i - 1] == '/') && (forall|j: int|
                i <= j < p.len() ==> p[j] != '/') && i < p.len() && p.subrange(i, p.len() as int)
                != seq!['.'] && p.subrange(i, p.len() as int) != seq!['.', '.'] && !p.subrange(
                i,
                p.len() as int,
            ).contains('\\') implies remote_filename_spec(p) == p.subrange(i, p.len() as int) by {
            lemma_remote_filename_keeps_segment(p, i);
        }
    }
    let seg = remote_path.substring_char(start, n);
    if is_unsafe_str(seg) {
        proof {
            reveal_strlit("file");
            assert("file"@ =~= fallback_name());
            assert(!fallback_name().contains('/'));
            assert(!fallback_name().contains('\\'));
            assert(fallback_name() != seq!['.']);
            assert(fallback_name() != seq!['.', '.']);
        }
        String::from_str("file")
    } else {
        String::from_str(seg)
    }
}

/// The remote path of an upload of `name` into `remote_dir`: `/name` for the
/// root, else `remote_dir` without trailing slashes, `/`, then `name`.
pub fn upload_remote_path(remote_dir: &str, name: &str) -> (r: String)
    ensures
        forall|k: int|
            #![trigger remote_dir@.take(k)]
            0 <= k <= remote_dir@.len() && (forall|j: int|
                k <= j < remote_dir@.len() ==> remote_dir@[j] == '/') && (k == 0 || remote_dir@[k
                - 1] != '/') ==> r@ == remote_dir@.take(k) + seq!['/'] + name@,
        r@ == upload_path_spec(remote_dir@, name@),
{
    proof {
        reveal_strlit("/");
        assert forall|k: int|
            #![trigger remote_dir@.take(k)]
            0 <= k <= remote_dir@.len() && (forall|j: int|
                k <= j < remote_dir@.len() ==> remote_dir@[j] == '/') && (k == 0 || remote_dir@[k
                - 1] != '/') implies upload_path_spec(remote_dir@, name@) == remote_dir@.take(k)
            + seq!['/'] + name@ by {
            lemma_upload_path_keeps_dir(remote_dir@, name@, k);
        }
    }
    if str_eq(remote_dir, "/") {
        proof {
            assert(remote_dir@.drop_last() =~= Seq::<char>::empty());
            assert(trim_trailing_slashes(remote_dir@) == trim_trailing_slashes(
                remote_dir@.drop_last(),
            ));
        }
        let mut r = String::from_str("/");
        r.append(name);
        return r;
    }
    let n = remote_dir.unicode_len();
    let mut end: usize = n;
    proof {
        assert(remote_dir@.take(n as int) =~= remote_dir@);
    }
    while end > 0 && remote_dir.get_char(end - 1) == '/'
        invariant
            n == remote_dir@.len(),
            end <= n,
            trim_trailing_slashes(remote_dir@.take(end as int)) == trim_trailing_slashes(
                remote_dir@,
            ),
        decreases end,
    {
        proof {
            lemma_trim_prefix(remote_dir@, end - 1);
        }
        end = end - 1;
    }
    proof {
        let t = remote_dir@.take(end as int);
        if end > 0 {
            assert(t.last() == remote_dir@[end - 1]);
        }
        assert(trim_trailing_slashes(t) == t);
        assert(remote_dir@.subrange(0, end as int) =~= t);
    }
    let mut r = String::from_str(remote_dir.substring_char(0, end));
    r.append("/");
    r.append(name);
    r
}

/// The file name and remote path of an upload into `remote_dir` of a local
/// file whose name is `file_name`; `sftp_invalid_filename` where the local
/// path has no file name.
pub fn upload_target(remote_dir: &str, file_name: Option<String>) -> (r: Result<
    (String, String),
    AppError,
>)
    ensures
        file_name is None ==> (r matches Err(e) && error_is(
            e,
            ErrorKind::Other,
            "sftp_invalid_filename"@,
        ) && detail_is_empty(e.detail)),
        file_name matches Some(n) ==> (r matches Ok((name, path)) && name@ == n@ && path@
            == upload_path_spec(remote_dir@, n@)),
{
    match file_name {
        None => Err(AppError::other("sftp_invalid_filename", ErrorDetail::Empty)),
        Some(name) => {
            let path = upload_remote_path(remote_dir, name.as_str());
            Ok((name, path))
        },
    }
}

proof fn lemma_digits_value_nonneg(s: Seq<char>)
    requires
        forall|i: int| 0 <= i < s.len() ==> is_digit(#[trigger] s[i]),
    ensures
        digits_value(s) >= 0,
    decreases s.len(),
{
    if s.len() > 0 {
        lemma_digits_value_nonneg(s.drop_last());
    }
}

proof fn lemma_digits_value_prefix(s: Seq<char>, k: int)
    requires
        0 <= k <= s.len(),
        forall|i: int| 0 <= i < s.len() ==> is_digit(#[trigger] s[i]),
    ensures
        digits_value(s.take(k)) <= digits_value(s),
    decreases s.len(),
{
    if k < s.len() {
        assert(s.drop_last().take(k) =~= s.take(k));
        lemma_digits_value_prefix(s.drop_last(), k);
        lemma_digits_value_nonneg(s.drop_last());
    } else {
        assert(s.take(k) =~= s);
    }
}

/// Reads a decimal `u64` the way `u64::from_str` does.
pub fn parse_u64(s: &str) -> (r: Option<u64>)
    ensures
        r == parse_u64_spec(s@),
{
    let n = s.unicode_len();
    let start: usize = if n > 0 && s.get_char(0) == '+' {
        1
    } else {
        0
    };
    let ghost d = s@.subrange(start as int, n as int);
    proof {
        assert(d =~= unsigned_digits(s@));
    }
    if start >= n {
        return None;
    }
    let mut i: usize = start;
    while i < n
        invariant
            n == s@.len(),
            start <= i <= n,
            d == s@.subrange(start as int, n as int),
            d == unsigned_digits(s@),
            forall|j: int| 0 <= j < i - start ==> is_digit(#[trigger] d[j]),
        decreases n - i,
    {
        let c = s.get_char(i);
        if !('0' <= c && c <= '9') {
            proof {
                assert(!is_digit(d[i - start]));
            }
            return None;
        }
        i = i + 1;
    }
    let mut value: u64 = 0;
    let mut k: usize = start;
    while k < n
        invariant
            n == s@.len(),
            start <= k <= n,
            d == s@.subrange(start as int, n as int),
            d == unsigned_digits(s@),
            forall|j: int| 0 <= j < d.len() ==> is_digit(#[trigger] d[j]),
            value as int == digits_value(d.take(k - start)),
        decreases n - k,
    {
        let c = s.get_char(k);
        proof {
            assert(is_digit(d[k - start]));
            assert(d.take(k - start + 1).drop_last() =~= d.take(k - start));
            assert(d.take(k - start + 1).last() == c);
        }
        let digit: u64 = (c as u32 - '0' as u32) as u64;
        match value.checked_mul(10) {
            None => {
                proof {
                    lemma_digits_value_nonneg(d.take(k - start + 1).drop_last());
                    lemma_digits_value_prefix(d, k - start + 1);
                }
                return None;
            },
            Some(v10) => match v10.checked_add(digit) {
                None => {
                    proof {
                        lemma_digits_value_prefix(d, k - start + 1);
                    }
                    return None;
                },
                Some(v) => {
                    value = v;
                },
            },
        }
        k = k + 1;
    }
    proof {
        assert(d.take(n - start) =~= d);
    }
    Some(value)
}

/// The connect timeout in seconds: the stored setting where it reads as a
/// number, else `default`.
pub fn connect_timeout_secs(setting: Option<String>, default: u64) -> (r: u64)
    ensures
        r == connect_timeout_spec(
            match setting {
                Some(v) => Some(v@),
                None => None,
            },
            default,
        ),
{
    match setting {
        Some(v) => match parse_u64(v.as_str()) {
            Some(x) => x,
            None => default,
        },
        None => default,
    }
}

} // verus!
