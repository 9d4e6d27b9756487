//! Paths as the operating system stores them (a sequence of bytes, `/` separating the
//! components), with the operations this library needs on them.

use vstd::prelude::*;
use vstd::string::*;
use vstd::utf8::*;
use vstd::slice::slice_subrange;
use vstd::std_specs::cmp::PartialEqSpec;

verus! {

/// The byte that separates path components.
pub const SEPARATOR: u8 = 0x2f;

/// The byte `.`.
pub const DOT: u8 = 0x2e;

/// What can go wrong when handling a path.
#[derive(Debug)]
pub enum Error {
    /// The path cannot be used: it is not valid UTF-8, or it has no usable file name.
    InvalidPath { path: PathBuf },
    /// The current working directory could not be determined.
    InvalidCurrentWorkingDirectory { source: std::io::Error },
}

/// The I/O error of the standard library, carried through unchanged.
#[verifier::external_type_specification]
#[verifier::external_body]
pub struct ExIoError(std::io::Error);

/// An owned file-system path, held as the bytes that make it up. Two paths are equal when
/// they have the same components (see [`spec_same_components`]), as the standard library's
/// paths are.
#[derive(Debug, Eq)]
pub struct PathBuf {
    pub bytes: Vec<u8>,
}

impl View for PathBuf {
    type V = Seq<u8>;

    open spec fn view(&self) -> Seq<u8> {
        self.bytes@
    }
}

/// A path is absolute when it starts at the root, that is with a separator.
pub open spec fn spec_is_absolute(p: Seq<u8>) -> bool {
    p.len() > 0 && p[0] == SEPARATOR
}

/// The path `rel` appended to `base`: an absolute `rel` replaces `base`; otherwise a
/// separator is put between them unless `base` is empty or already ends with one.
pub open spec fn spec_join(base: Seq<u8>, rel: Seq<u8>) -> Seq<u8> {
    if spec_is_absolute(rel) {
        rel
    } else if base.len() == 0 || base.last() == SEPARATOR {
        base + rel
    } else {
        base.push(SEPARATOR) + rel
    }
}

/// The bytes after the last separator of `p` (all of `p` when it has none).
pub open spec fn last_segment(p: Seq<u8>) -> Seq<u8>
    decreases p.len(),
{
    if p.len() == 0 || p.last() == SEPARATOR {
        seq![]
    } else {
        last_segment(p.drop_last()).push(p.last())
    }
}

/// The last component of `p` that is neither empty nor `.` (components are the runs of
/// bytes between separators); empty when `p` has no such component.
pub open spec fn last_component(p: Seq<u8>) -> Seq<u8>
    decreases p.len(),
{
    if p.len() == 0 {
        seq![]
    } else {
        let seg = last_segment(p);
        if seg.len() == 0 || seg == seq![DOT] {
            last_component(p.drop_last())
        } else {
            seg
        }
    }
}

/// The file name of `p`: its last component, unless there is none or it is `..`.
pub open spec fn spec_file_name(p: Seq<u8>) -> Option<Seq<u8>> {
    let c = last_component(p);
    if c.len() == 0 || c == seq![DOT, DOT] {
        None
    } else {
        Some(c)
    }
}

/// A component that a path keeps: a run between separators that is neither empty nor `.`.
pub open spec fn is_kept(seg: Seq<u8>) -> bool {
    seg.len() > 0 && seg != seq![DOT]
}

/// The last segment is no longer than the path.
pub proof fn lemma_last_segment_len(p: Seq<u8>)
    ensures
        last_segment(p).len() <= p.len(),
    decreases p.len(),
{
    if p.len() > 0 && p.last() != SEPARATOR {
        lemma_last_segment_len(p.drop_last());
    }
}

/// The components of `p` that are neither empty nor `.`, from the last to the first.
pub open spec fn rev_kept(p: Seq<u8>) -> Seq<Seq<u8>>
    decreases p.len(),
{
    if p.len() == 0 {
        seq![]
    } else {
        let seg = last_segment(p);
        let here = if is_kept(seg) {
            seq![seg]
        } else {
            seq![]
        };
        if seg.len() >= p.len() {
            here
        } else {
            proof {
                lemma_last_segment_len(p);
            }
            here + rev_kept(p.subrange(0, p.len() - seg.len() - 1))
        }
    }
}

/// Whether a relative path starts with the component `.`, which it keeps as its first.
pub open spec fn leading_cur_dir(p: Seq<u8>) -> bool {
    p.len() > 0 && p[0] == DOT && (p.len() == 1 || p[1] == SEPARATOR)
}

/// Whether `a` and `b` have the same components: both start at the root or neither does,
/// both or neither start with `.`, and the other components (runs between separators,
/// empty ones and `.` left out) are the same, in the same order.
pub open spec fn spec_same_components(a: Seq<u8>, b: Seq<u8>) -> bool {
    &&& spec_is_absolute(a) == spec_is_absolute(b)
    &&& leading_cur_dir(a) == leading_cur_dir(b)
    &&& rev_kept(a) == rev_kept(b)
}

/// When no separator follows `start` and a separator (or the beginning) precedes it, the
/// last segment is what follows `start`.
proof fn lemma_last_segment(p: Seq<u8>, start: int)
    requires
        0 <= start <= p.len(),
        forall|i: int| start <= i < p.len() ==> p[i] != SEPARATOR,
        start == 0 || p[start - 1] == SEPARATOR,
    ensures
        last_segment(p) == p.subrange(start, p.len() as int),
    decreases p.len() - start,
{
    if p.len() > start {
        lemma_last_segment(p.drop_last(), start);
        assert(p.subrange(start, p.len() as int) == p.drop_last().subrange(
            start,
            p.len() - 1,
        ).push(p.last()));
    }
}

/// Reads `bytes` as text with `std::str::from_utf8`, which succeeds exactly when the bytes
/// are valid UTF-8, and then gives the string slice made of those same bytes.
#[verifier::external_body]
fn str_from_utf8(bytes: &[u8]) -> (r: Option<&str>)
    ensures
        r is Some <==> valid_utf8(bytes@),
        r matches Some(s) ==> s.spec_bytes() == bytes@,
{
    std::str::from_utf8(bytes).ok()
}

/// The text that `bytes` encode, when they are valid UTF-8.
pub(crate) fn utf8_text(bytes: &[u8]) -> (r: Option<&str>)
    ensures
        r is Some <==> valid_utf8(bytes@),
        r matches Some(s) ==> s@ == decode_utf8(bytes@),
{
    broadcast use encode_utf8_decode_utf8;

    let r = str_from_utf8(bytes);
    proof {
        if let Some(s) = r {
            assert(decode_utf8(encode_utf8(s@)) == s@);
        }
    }
    r
}

/// The runs of `p` that the ranges `r` pick.
pub open spec fn picked(p: Seq<u8>, r: Seq<(usize, usize)>) -> Seq<Seq<u8>> {
    Seq::new(r.len(), |k: int| p.subrange(r[k].0 as int, r[k].1 as int))
}

/// Whether the bytes of `a` from `sa` to `ea` are those of `b` from `sb` to `eb`.
fn same_run(a: &[u8], sa: usize, ea: usize, b: &[u8], sb: usize, eb: usize) -> (r: bool)
    requires
        sa <= ea <= a@.len(),
        sb <= eb <= b@.len(),
    ensures
        r == (a@.subrange(sa as int, ea as int) == b@.subrange(sb as int, eb as int)),
{
    let ghost x = a@.subrange(sa as int, ea as int);
    let ghost y = b@.subrange(sb as int, eb as int);
    if ea - sa != eb - sb {
        assert(x.len() != y.len());
        return false;
    }
    let mut i: usize = 0;
    while i < ea - sa
        invariant
            sa <= ea <= a@.len(),
            sb <= eb <= b@.len(),
            ea - sa == eb - sb,
            i <= ea - sa,
            x == a@.subrange(sa as int, ea as int),
            y == b@.subrange(sb as int, eb as int),
            forall|j: int| 0 <= j < i ==> #[trigger] x[j] == y[j],
        decreases ea - sa - i,
    {
        if a[sa + i] != b[sb + i] {
            assert(x[i as int] != y[i as int]);
            return false;
        }
        i = i + 1;
    }
    assert(x =~= y);
    true
}

impl PartialEq for PathBuf {
    fn eq(&self, other: &Self) -> (r: bool) {
        if self.is_absolute() != other.is_absolute() || self.has_leading_cur_dir()
            != other.has_leading_cur_dir() {
            return false;
        }
        let a = self.kept_ranges();
        let b = other.kept_ranges();
        if a.len() != b.len() {
            assert(picked(self@, a@).len() != picked(other@, b@).len());
            return false;
        }
        let mut k: usize = 0;
        while k < a.len()
            invariant
                a@.len() == b@.len(),
                k <= a@.len(),
                picked(self@, a@) == rev_kept(self@),
                picked(other@, b@) == rev_kept(other@),
                forall|i: int| #![trigger a@[i]] 0 <= i < a@.len() ==> a@[i].0 <= a@[i].1 <= self@.len(),
                forall|i: int| #![trigger b@[i]] 0 <= i < b@.len() ==> b@[i].0 <= b@[i].1 <= other@.len(),
                forall|j: int| 0 <= j < k ==> picked(self@, a@)[j] == picked(other@, b@)[j],
            decreases a@.len() - k,
        {
            let (sa, ea) = a[k];
            let (sb, eb) = b[k];
            if !same_run(self.as_bytes(), sa, ea, other.as_bytes(), sb, eb) {
                assert(picked(self@, a@)[k as int] != picked(other@, b@)[k as int]);
                return false;
            }
            k = k + 1;
        }
        assert(picked(self@, a@) =~= picked(other@, b@));
        true
    }
}

impl vstd::std_specs::cmp::PartialEqSpecImpl for PathBuf {
    open spec fn obeys_eq_spec() -> bool {
        true
    }

    open spec fn eq_spec(&self, other: &PathBuf) -> bool {
        spec_same_components(self@, other@)
    }
}

impl Clone for PathBuf {
    fn clone(&self) -> (r: Self)
        ensures
            r@ == self@,
    {
        PathBuf { bytes: self.bytes.clone() }
    }
}

impl PathBuf {
    /// The path made of the given bytes.
    pub fn from_bytes(bytes: Vec<u8>) -> (r: PathBuf)
        ensures
            r@ == bytes@,
    {
        PathBuf { bytes }
    }

    /// The path whose bytes are the UTF-8 encoding of `s`.
    pub fn from_str(s: &str) -> (r: PathBuf)
        ensures
            r@ == encode_utf8(s@),
    {
        PathBuf { bytes: s.as_bytes_vec() }
    }

    /// The bytes of the path.
    pub fn as_bytes(&self) -> (r: &[u8])
        ensures
            r@ == self@,
    {
        self.bytes.as_slice()
    }

    /// Where the file name of the path lies among its bytes, when it has one.
    fn file_name_range(&self) -> (r: Option<(usize, usize)>)
        ensures
            match r {
                Some((start, end)) => start <= end <= self@.len() && spec_file_name(self@) == Some(
                    self@.subrange(start as int, end as int),
                ),
                None => spec_file_name(self@) is None,
            },
    {
        let ghost p = self@;
        let mut end = self.bytes.len();
        assert(p.subrange(0, end as int) == p);
        loop
            invariant
                end <= p.len(),
                p == self@,
                last_component(p) == last_component(p.subrange(0, end as int)),
            decreases end,
        {
            if end == 0 {
                assert(p.subrange(0, 0) == Seq::<u8>::empty());
                return None;
            }
            let mut start = end;
            while start > 0 && self.bytes[start - 1] != SEPARATOR
                invariant
                    start <= end <= p.len(),
                    p == self@,
                    forall|i: int| start <= i < end ==> p[i] != SEPARATOR,
                decreases start,
            {
                start = start - 1;
            }
            let ghost q = p.subrange(0, end as int);
            proof {
                lemma_last_segment(q, start as int);
                assert(q.subrange(start as int, end as int) == p.subrange(start as int, end as int));
                assert(q.drop_last() == p.subrange(0, end - 1));
            }
            if start == end || (end - start == 1 && self.bytes[start] == DOT) {
                proof {
                    if start != end {
                        assert(p.subrange(start as int, end as int) == seq![DOT]);
                    }
                }
                end = end - 1;
            } else {
                if end - start == 2 && self.bytes[start] == DOT && self.bytes[start + 1] == DOT {
                    assert(p.subrange(start as int, end as int) == seq![DOT, DOT]);
                    return None;
                }
                proof {
                    let seg = p.subrange(start as int, end as int);
                    if seg == seq![DOT] {
                        assert(seg[0] == DOT);
                    }
                    if seg == seq![DOT, DOT] {
                        assert(seg[0] == DOT && seg[1] == DOT);
                    }
                }
                return Some((start, end));
            }
        }
    }

    /// Whether the path ends in a file name that is valid UTF-8 (see
    /// [`PathBufExt::has_utf8_file_name`]).
    pub fn file_name_is_utf8(&self) -> (r: bool)
        ensures
            r == self.has_utf8_file_name(),
    {
        match self.file_name_range() {
            None => false,
            Some((start, end)) => utf8_text(slice_subrange(self.as_bytes(), start, end)).is_some(),
        }
    }

    /// Whether the path is relative and starts with the component `.`.
    fn has_leading_cur_dir(&self) -> (r: bool)
        ensures
            r == leading_cur_dir(self@),
    {
        self.bytes.len() > 0 && self.bytes[0] == DOT && (self.bytes.len() == 1 || self.bytes[1]
            == SEPARATOR)
    }

    /// Where the components that the path keeps lie among its bytes, from the last to the
    /// first.
    fn kept_ranges(&self) -> (r: Vec<(usize, usize)>)
        ensures
            picked(self@, r@) == rev_kept(self@),
            forall|i: int| #![trigger r@[i]] 0 <= i < r@.len() ==> r@[i].0 <= r@[i].1 <= self@.len(),
    {
        let ghost p = self@;
        let mut r: Vec<(usize, usize)> = Vec::new();
        let mut end = self.bytes.len();
        let mut more = true;
        assert(p.subrange(0, end as int) == p);
        while more
            invariant
                end <= p.len(),
                p == self@,
                forall|i: int| #![trigger r@[i]] 0 <= i < r@.len() ==> r@[i].0 <= r@[i].1 <= p.len(),
                more ==> rev_kept(p) == picked(p, r@) + rev_kept(p.subrange(0, end as int)),
                !more ==> rev_kept(p) == picked(p, r@),
            decreases end + if more { 1int } else { 0int },
        {
            if end == 0 {
                assert(picked(p, r@) + seq![] =~= picked(p, r@));
                more = false;
            } else {
                let mut start = end;
                while start > 0 && self.bytes[start - 1] != SEPARATOR
                    invariant
                        start <= end <= p.len(),
                        p == self@,
                        forall|i: int| start <= i < end ==> p[i] != SEPARATOR,
                    decreases start,
                {
                    start = start - 1;
                }
                let ghost q = p.subrange(0, end as int);
                let ghost before = picked(p, r@);
                proof {
                    lemma_last_segment(q, start as int);
                    assert(q.subrange(start as int, end as int) == p.subrange(start as int, end as int));
                }
                let keep = start < end && !(end - start == 1 && self.bytes[start] == DOT);
                proof {
                    let seg = p.subrange(start as int, end as int);
                    assert(seq![DOT][0] == DOT && seq![DOT].len() == 1);
                    if end - start == 1 && seg[0] == DOT {
                        assert(seg =~= seq![DOT]);
                    }
                    assert(keep == is_kept(seg));
                }
                if keep {
                    r.push((start, end));
                    assert(picked(p, r@) =~= before + seq![p.subrange(start as int, end as int)]);
                } else {
                    assert(picked(p, r@) == before);
                }
                if start == 0 {
                    more = false;
                    assert(picked(p, r@) =~= before + (if keep {
                        seq![p.subrange(start as int, end as int)]
                    } else {
                        seq![]
                    }));
                } else {
                    proof {
                        assert(q.subrange(0, q.len() - (end - start) - 1) == p.subrange(0, start - 1));
                    }
                    end = start - 1;
                }
            }
        }
        r
    }

    /// Whether the path is absolute.
    pub fn is_absolute(&self) -> (r: bool)
        ensures
            r == spec_is_absolute(self@),
    {
        self.bytes.len() > 0 && self.bytes[0] == SEPARATOR
    }

    /// The path `rel` appended to this one.
    pub fn join(&self, rel: &PathBuf) -> (r: PathBuf)
        ensures
            r@ == spec_join(self@, rel@),
    {
        if rel.is_absolute() {
            return rel.clone();
        }
        let mut bytes = self.bytes.clone();
        let n = bytes.len();
        if n > 0 && bytes[n - 1] != SEPARATOR {
            bytes.push(SEPARATOR);
        }
        let mut i: usize = 0;
        while i < rel.bytes.len()
            invariant
                i <= rel@.len(),
                bytes@ == (if self@.len() == 0 || self@.last() == SEPARATOR {
                    self@
                } else {
                    self@.push(SEPARATOR)
                }) + rel@.subrange(0, i as int),
            decreases rel@.len() - i,
        {
            bytes.push(rel.bytes[i]);
            i = i + 1;
            assert(rel@.subrange(0, i as int) == rel@.subrange(0, i - 1).push(rel@[i - 1]));
        }
        assert(rel@.subrange(0, rel@.len() as int) == rel@);
        PathBuf { bytes }
    }
}

/// Operations on paths.
pub trait PathBufExt: Sized {
    /// Whether the path ends in a file name that is valid UTF-8.
    spec fn has_utf8_file_name(&self) -> bool;

    /// The path as UTF-8 text.
    fn into_str<'a>(&'a self) -> Result<&'a str, Error>;

    /// Returns any provided path as an absolute path: one that is already absolute is
    /// returned as is; any other is appended to the current working directory, which the
    /// caller hands in as it obtained it.
    fn absolutize(self, current_dir: Result<PathBuf, std::io::Error>) -> Result<Self, Error>;

    /// Drops the template keyword from the file name. Defined for paths without a UTF-8
    /// file name only, which it rejects.
    fn remove_keyword(self) -> Result<Self, Error>
        requires
            !self.has_utf8_file_name(),
    ;
}

/// The path as text, or `None` when its bytes are not UTF-8.
pub open spec fn spec_path_text(p: Seq<u8>) -> Option<Seq<char>> {
    if valid_utf8(p) {
        Some(decode_utf8(p))
    } else {
        None
    }
}

/// The result of making `p` absolute against the current directory `current_dir`.
pub open spec fn spec_absolutize(p: Seq<u8>, current_dir: Result<PathBuf, std::io::Error>) -> Result<
    Seq<u8>,
    std::io::Error,
> {
    if spec_is_absolute(p) {
        Ok(p)
    } else {
        match current_dir {
            Ok(c) => Ok(spec_join(c@, p)),
            Err(e) => Err(e),
        }
    }
}

impl PathBufExt for PathBuf {
    open spec fn has_utf8_file_name(&self) -> bool {
        spec_file_name(self@) matches Some(name) && valid_utf8(name)
    }

    fn into_str<'a>(&'a self) -> (r: Result<&'a str, Error>)
        ensures
            match r {
                Ok(s) => spec_path_text(self@) == Some(s@),
                Err(Error::InvalidPath { path }) => spec_path_text(self@) is None && path@ == self@,
                Err(_) => false,
            },
    {
        match utf8_text(self.as_bytes()) {
            Some(s) => Ok(s),
            None => Err(Error::InvalidPath { path: self.clone() }),
        }
    }

    fn absolutize(self, current_dir: Result<PathBuf, std::io::Error>) -> (r: Result<PathBuf, Error>)
        ensures
            match spec_absolutize(self@, current_dir) {
                Ok(p) => r matches Ok(q) && q@ == p,
                Err(e) => r == Err::<PathBuf, Error>(
                    Error::InvalidCurrentWorkingDirectory { source: e },
                ),
            },
    {
        if self.is_absolute() {
            return Ok(self);
        }
        match current_dir {
            Ok(cwd) => Ok(cwd.join(&self)),
            Err(e) => Err(Error::InvalidCurrentWorkingDirectory { source: e }),
        }
    }

    fn remove_keyword(self) -> (r: Result<PathBuf, Error>)
        ensures
            r matches Err(Error::InvalidPath { path }) && path@ == self@,
    {
        match self.file_name_range() {
            None => Err(Error::InvalidPath { path: self }),
            Some((start, end)) => {
                // The file name is there, and by the precondition it is not UTF-8 text.
                let name = slice_subrange(self.as_bytes(), start, end);
                let text = utf8_text(name);
                assert(text is None);
                Err(Error::InvalidPath { path: self })
            },
        }
    }
}

/// A path made from text reads back as that text.
pub proof fn lemma_path_text_roundtrip(s: Seq<char>)
    ensures
        spec_path_text(encode_utf8(s)) == Some(s),
{
    broadcast use encode_utf8_valid_utf8, encode_utf8_decode_utf8;

}

/// Appending any path to an absolute path gives an absolute path.
pub proof fn lemma_join_absolute(base: Seq<u8>, rel: Seq<u8>)
    requires
        spec_is_absolute(base),
    ensures
        spec_is_absolute(spec_join(base, rel)),
{
    if !spec_is_absolute(rel) {
        if base.last() == SEPARATOR {
            assert((base + rel)[0] == base[0]);
        } else {
            assert((base.push(SEPARATOR) + rel)[0] == base[0]);
        }
    }
}

/// Made absolute against an absolute working directory, every path is absolute; a path
/// that is already absolute is kept as it is.
pub proof fn lemma_absolutize_absolute(p: Seq<u8>, current_dir: PathBuf)
    requires
        spec_is_absolute(current_dir@),
    ensures
        spec_absolutize(p, Ok(current_dir)) matches Ok(q) && spec_is_absolute(q),
        spec_is_absolute(p) ==> spec_absolutize(p, Ok(current_dir)) == Ok::<
            Seq<u8>,
            std::io::Error,
        >(p),
{
    lemma_join_absolute(current_dir@, p);
}

/// Making a path absolute twice changes nothing the second time, whatever working
/// directory the second call is given, as long as the first was given an absolute one.
pub proof fn lemma_absolutize_idempotent(
    p: Seq<u8>,
    current_dir: PathBuf,
    later_dir: Result<PathBuf, std::io::Error>,
)
    requires
        spec_is_absolute(current_dir@),
    ensures
        spec_absolutize(p, Ok(current_dir)) matches Ok(q) && spec_is_absolute(q)
            && spec_absolutize(q, later_dir) == Ok::<Seq<u8>, std::io::Error>(q),
{
    lemma_absolutize_absolute(p, current_dir);
}

/// The UTF-8 encoding of a text starts with a separator exactly when the text starts with
/// `/`: no other character's encoding starts with that byte.
pub proof fn lemma_encoding_starts_with_separator(s: Seq<char>)
    ensures
        (encode_utf8(s).len() > 0 && encode_utf8(s)[0] == SEPARATOR) <==> (s.len() > 0 && s[0]
            == '/'),
{
    if s.len() > 0 {
        let c = s[0];
        let v = c as u32;
        char_is_scalar(c);
        let e = encode_scalar(v);
        assert(encode_utf8(s) == e + encode_utf8(s.drop_first()));
        if has_width_1_encoding(v) {
            assert(((v & 0x7F) as u8 == 0x2f) == (v == 0x2f)) by (bit_vector)
                requires
                    v <= 0x7f,
            ;
        } else if has_width_2_encoding(v) {
            assert((0xC0 | ((v >> 6) & 0x1F) as u8) != 0x2f) by (bit_vector);
        } else if has_width_3_encoding(v) {
            assert((0xE0 | ((v >> 12) & 0x0F) as u8) != 0x2f) by (bit_vector);
        } else {
            assert((0xF0 | ((v >> 18) & 0x7) as u8) != 0x2f) by (bit_vector);
        }
        assert(('/' as u32) == 0x2f);
        if v == 0x2f {
            char_u32_cast(c, v);
            char_u32_cast('/', 0x2f);
        }
    }
}

/// Joining follows the standard library: an absolute path (one starting with a separator)
/// replaces the base; any other path is appended to the base, with one separator put in
/// between when the base is not empty and does not already end with one.
pub proof fn lemma_join_layout(base: Seq<u8>, rel: Seq<u8>)
    ensures
        rel.len() > 0 && rel[0] == SEPARATOR ==> spec_join(base, rel) == rel,
        !(rel.len() > 0 && rel[0] == SEPARATOR) && base.len() > 0 && base.last() != SEPARATOR
            ==> spec_join(base, rel) == base + seq![SEPARATOR] + rel,
        !(rel.len() > 0 && rel[0] == SEPARATOR) && (base.len() == 0 || base.last() == SEPARATOR)
            ==> spec_join(base, rel) == base + rel,
        !(rel.len() > 0 && rel[0] == SEPARATOR) ==> spec_join(base, rel).subrange(
            0,
            base.len() as int,
        ) == base,
{
    assert(base.push(SEPARATOR) == base + seq![SEPARATOR]);
    assert((base + rel).subrange(0, base.len() as int) == base);
    assert((base + seq![SEPARATOR] + rel).subrange(0, base.len() as int) == base);
}

/// Making a path absolute: a path starting with a separator is returned as it is, whatever
/// happened to the working directory; any other path is the working directory followed by
/// the path (with one separator between them unless the working directory is empty or ends
/// with one), and when the working directory is unknown its error is returned.
pub proof fn lemma_absolutize_layout(p: Seq<u8>, current_dir: PathBuf, e: std::io::Error)
    ensures
        p.len() > 0 && p[0] == SEPARATOR ==> spec_absolutize(p, Ok(current_dir)) == Ok::<
            Seq<u8>,
            std::io::Error,
        >(p) && spec_absolutize(p, Err(e)) == Ok::<Seq<u8>, std::io::Error>(p),
        !(p.len() > 0 && p[0] == SEPARATOR) ==> spec_absolutize(p, Err(e)) == Err::<
            Seq<u8>,
            std::io::Error,
        >(e),
        !(p.len() > 0 && p[0] == SEPARATOR) && current_dir@.len() > 0 && current_dir@.last()
            != SEPARATOR ==> spec_absolutize(p, Ok(current_dir)) == Ok::<Seq<u8>, std::io::Error>(
            current_dir@ + seq![SEPARATOR] + p,
        ),
        !(p.len() > 0 && p[0] == SEPARATOR) && (current_dir@.len() == 0 || current_dir@.last()
            == SEPARATOR) ==> spec_absolutize(p, Ok(current_dir)) == Ok::<
            Seq<u8>,
            std::io::Error,
        >(current_dir@ + p),
{
    lemma_join_layout(current_dir@, p);
}

/// The last segment of `p` is a run without separators at the end of `p`, preceded by a
/// separator or by nothing.
proof fn lemma_last_segment_shape(p: Seq<u8>)
    ensures
        last_segment(p).len() <= p.len(),
        last_segment(p) == p.subrange(p.len() - last_segment(p).len(), p.len() as int),
        forall|i: int|
            p.len() - last_segment(p).len() <= i < p.len() ==> #[trigger] p[i] != SEPARATOR,
        last_segment(p).len() == p.len() || p[p.len() - last_segment(p).len() - 1] == SEPARATOR,
    decreases p.len(),
{
    if p.len() > 0 && p.last() != SEPARATOR {
        let q = p.drop_last();
        lemma_last_segment_shape(q);
        assert(last_segment(p) == p.subrange(p.len() - last_segment(p).len(), p.len() as int));
        assert forall|i: int|
            p.len() - last_segment(p).len() <= i < p.len() implies #[trigger] p[i] != SEPARATOR by {
            if i < p.len() - 1 {
                assert(q[i] == p[i]);
            }
        }
        if last_segment(q).len() < q.len() {
            assert(q[q.len() - last_segment(q).len() - 1] == p[p.len() - last_segment(p).len() - 1]);
        }
    }
}

/// A path written without redundant parts: no two separators in a row, no separator at the
/// end (unless the path is the root alone), and no `.` component.
pub open spec fn is_clean(p: Seq<u8>) -> bool {
    &&& forall|i: int| 0 <= i < p.len() - 1 && #[trigger] p[i] == SEPARATOR ==> p[i + 1] != SEPARATOR
    &&& p.len() > 1 ==> p.last() != SEPARATOR
    &&& forall|i: int|
        0 <= i < p.len() && #[trigger] p[i] == DOT && (i == 0 || p[i - 1] == SEPARATOR) ==> i + 1
            < p.len() && p[i + 1] != SEPARATOR
}

/// What a clean path is made of, when it is neither empty nor the root alone: its last
/// component, kept, and before it (behind a separator) a clean rest with the same start,
/// which is either empty or again neither empty nor the root.
proof fn lemma_clean_split(p: Seq<u8>)
    requires
        is_clean(p),
        p.len() > 0,
        p != seq![SEPARATOR],
    ensures
        ({
            let seg = last_segment(p);
            let k = p.len() - seg.len();
            &&& 0 < seg.len() <= p.len()
            &&& is_kept(seg)
            &&& k == 0 ==> rev_kept(p) == seq![seg] && p == seg && p[0] != SEPARATOR
            &&& k > 0 ==> {
                let rest = p.subrange(0, k - 1);
                &&& rev_kept(p) == seq![seg] + rev_kept(rest)
                &&& p == rest + seq![SEPARATOR] + seg
                &&& is_clean(rest)
                &&& rest != seq![SEPARATOR]
                &&& rest.len() > 0 ==> spec_is_absolute(rest) == spec_is_absolute(p)
                &&& rest.len() == 0 ==> spec_is_absolute(p)
            }
        }),
{
    lemma_last_segment_shape(p);
    let seg = last_segment(p);
    let k = p.len() - seg.len();
    if p.len() == 1 {
        assert(p[0] != SEPARATOR) by {
            if p[0] == SEPARATOR {
                assert(p == seq![SEPARATOR]);
            }
        }
    }
    assert(p.last() != SEPARATOR);
    assert(seg.len() > 0) by {
        if seg.len() == 0 {
            assert(p[p.len() - 1] == SEPARATOR);
        }
    }
    assert(seg[0] == p[k]);
    if seg == seq![DOT] {
        assert(p[k] == DOT);
        assert(k + 1 == p.len());
    }
    assert(is_kept(seg));
    if k == 0 {
        assert(p.subrange(0, p.len() as int) == p);
        assert(p[0] != SEPARATOR);
    } else {
        let rest = p.subrange(0, k - 1);
        assert(p == rest + seq![SEPARATOR] + seg);
        assert(is_clean(rest)) by {
            if rest.len() > 1 {
                assert(rest.last() == p[k - 2]);
                assert(p[k - 2] != SEPARATOR);
            }
            assert forall|i: int|
                0 <= i < rest.len() && #[trigger] rest[i] == DOT && (i == 0 || rest[i - 1]
                    == SEPARATOR) implies i + 1 < rest.len() && rest[i + 1] != SEPARATOR by {
                assert(p[i] == DOT);
                if i > 0 {
                    assert(p[i - 1] == SEPARATOR);
                }
                assert(i + 1 < p.len() && p[i + 1] != SEPARATOR);
            }
            assert forall|i: int| 0 <= i < rest.len() - 1 && #[trigger] rest[i] == SEPARATOR implies rest[i + 1]
                != SEPARATOR by {
                assert(p[i] == SEPARATOR);
            }
        }
        if rest.len() > 0 {
            assert(rest.last() == p[k - 2]);
            assert(p[k - 2] != SEPARATOR);
            assert(rest[0] == p[0]);
        }
        assert(rest != seq![SEPARATOR]) by {
            if rest == seq![SEPARATOR] {
                assert(rest.last() == SEPARATOR);
                assert(p[k - 2] == SEPARATOR);
            }
        }
        if rest.len() == 0 {
            assert(p[0] == SEPARATOR);
        }
    }
}

/// A clean path that is neither empty nor the root alone has a component.
proof fn lemma_clean_has_component(p: Seq<u8>)
    requires
        is_clean(p),
        p.len() > 0,
        p != seq![SEPARATOR],
    ensures
        rev_kept(p).len() > 0,
{
    lemma_clean_split(p);
}

/// The root alone has no component.
proof fn lemma_root_components()
    ensures
        rev_kept(seq![SEPARATOR]) == Seq::<Seq<u8>>::empty(),
{
    let p = seq![SEPARATOR];
    assert(p.last() == SEPARATOR);
    assert(last_segment(p) == Seq::<u8>::empty());
    assert(!is_kept(Seq::<u8>::empty()));
    assert(p.subrange(0, 0) == Seq::<u8>::empty());
    assert(rev_kept(Seq::<u8>::empty()) == Seq::<Seq<u8>>::empty());
}

/// Two clean paths with the same start and the same components are the same path.
proof fn lemma_clean_determined(a: Seq<u8>, b: Seq<u8>)
    requires
        is_clean(a),
        is_clean(b),
        spec_is_absolute(a) == spec_is_absolute(b),
        rev_kept(a) == rev_kept(b),
    ensures
        a == b,
    decreases a.len() + b.len(),
{
    lemma_root_components();
    if a.len() == 0 || a == seq![SEPARATOR] {
        if b.len() > 0 && b != seq![SEPARATOR] {
            lemma_clean_has_component(b);
        }
        if a.len() == 0 && b == seq![SEPARATOR] {
            assert(spec_is_absolute(b));
        }
        if a == seq![SEPARATOR] && b.len() == 0 {
            assert(spec_is_absolute(a));
        }
        return;
    }
    if b.len() == 0 || b == seq![SEPARATOR] {
        lemma_clean_has_component(a);
        if b.len() == 0 && a == seq![SEPARATOR] {
            assert(spec_is_absolute(a));
        }
        return;
    }
    lemma_clean_split(a);
    lemma_clean_split(b);
    let sa = last_segment(a);
    let sb = last_segment(b);
    let ka = a.len() - sa.len();
    let kb = b.len() - sb.len();
    assert(rev_kept(a)[0] == sa);
    assert(rev_kept(b)[0] == sb);
    if ka == 0 && kb == 0 {
        return;
    }
    if ka == 0 {
        let rb = b.subrange(0, kb - 1);
        assert(rev_kept(b) == seq![sb] + rev_kept(rb));
        assert(rev_kept(b).len() == 1 + rev_kept(rb).len());
        if rb.len() > 0 {
            lemma_clean_has_component(rb);
        }
        return;
    }
    if kb == 0 {
        let ra = a.subrange(0, ka - 1);
        assert(rev_kept(a) == seq![sa] + rev_kept(ra));
        assert(rev_kept(a).len() == 1 + rev_kept(ra).len());
        if ra.len() > 0 {
            lemma_clean_has_component(ra);
        }
        return;
    }
    let ra = a.subrange(0, ka - 1);
    let rb = b.subrange(0, kb - 1);
    assert(rev_kept(a) == seq![sa] + rev_kept(ra));
    assert(rev_kept(b) == seq![sb] + rev_kept(rb));
    assert(rev_kept(ra) == rev_kept(a).drop_first());
    assert(rev_kept(rb) == rev_kept(b).drop_first());
    if ra.len() > 0 && rb.len() == 0 {
        lemma_clean_has_component(ra);
        return;
    }
    if rb.len() > 0 && ra.len() == 0 {
        lemma_clean_has_component(rb);
        return;
    }
    if ra.len() > 0 {
        lemma_clean_determined(ra, rb);
    }
    assert(a == ra + seq![SEPARATOR] + sa);
    assert(b == rb + seq![SEPARATOR] + sb);
}

/// Equal paths have the same components, in the same order, and the same start (root, a
/// leading `.`, or neither); and between paths written without redundant parts, equality is
/// equality of their bytes, so it never identifies two different such paths.
pub proof fn lemma_path_equality(a: PathBuf, b: PathBuf)
    ensures
        a.eq_spec(&b) ==> rev_kept(a@) == rev_kept(b@) && spec_is_absolute(a@) == spec_is_absolute(
            b@,
        ) && leading_cur_dir(a@) == leading_cur_dir(b@),
        a@ == b@ ==> a.eq_spec(&b),
        is_clean(a@) && is_clean(b@) ==> (a.eq_spec(&b) <==> a@ == b@),
{
    if is_clean(a@) && is_clean(b@) && a.eq_spec(&b) {
        lemma_clean_determined(a@, b@);
    }
}

/// The file name of a path is its last component: a name (a run without separators, other
/// than `.` and `..`) at the end of a path, alone or behind a separator, is its file name,
/// also when a separator follows it; a path ending in `..` has no file name.
pub proof fn lemma_file_name(base: Seq<u8>, name: Seq<u8>)
    requires
        name.len() > 0,
        forall|i: int| 0 <= i < name.len() ==> name[i] != SEPARATOR,
        name != seq![DOT],
        name != seq![DOT, DOT],
    ensures
        spec_file_name(name) == Some(name),
        spec_file_name(base + seq![SEPARATOR] + name) == Some(name),
        spec_file_name(base + seq![SEPARATOR] + name + seq![SEPARATOR]) == Some(name),
        spec_file_name(base + seq![SEPARATOR, DOT, DOT]) is None,
{
    let p = base + seq![SEPARATOR] + name;
    lemma_last_segment(name, 0);
    assert(name.subrange(0, name.len() as int) == name);
    lemma_last_segment(p, base.len() as int + 1);
    assert(p.subrange(base.len() as int + 1, p.len() as int) == name);
    let q = p + seq![SEPARATOR];
    assert(q.drop_last() == p);
    let d = base + seq![SEPARATOR, DOT, DOT];
    lemma_last_segment(d, base.len() as int + 1);
    assert(d.subrange(base.len() as int + 1, d.len() as int) == seq![DOT, DOT]);
    assert(seq![DOT, DOT] != seq![DOT]) by {
        assert(seq![DOT, DOT].len() != seq![DOT].len());
    }
}

/// The path as UTF-8 text.
pub fn pathbuf_to_str<'a>(path: &'a PathBuf) -> (r: Result<&'a str, Error>)
    ensures
        match r {
            Ok(s) => spec_path_text(path@) == Some(s@),
            Err(Error::InvalidPath { path: p }) => spec_path_text(path@) is None && p@ == path@,
            Err(_) => false,
        },
{
    match utf8_text(path.as_bytes()) {
        Some(s) => Ok(s),
        None => Err(Error::InvalidPath { path: path.clone() }),
    }
}

} // verus!
