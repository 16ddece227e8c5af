//! Uploaded files: choosing the file among the fields of a multipart body,
//! and reducing the name the client gave to a bare file name.

use vstd::prelude::*;
use crate::exception::HTTPException;
use crate::text::{chars_of, concat, string_from_chars};

verus! {

broadcast use vstd::string::group_string_axioms;

/// `s` with every backslash replaced by a slash.
pub open spec fn slashed(s: Seq<char>) -> Seq<char> {
    s.map_values(|c: char| if c == '\\' { '/' } else { c })
}

/// The position of the last slash in `s`, or -1.
pub open spec fn last_slash(s: Seq<char>) -> int
    decreases s.len(),
{
    if s.len() == 0 {
        -1
    } else if s.last() == '/' {
        s.len() - 1
    } else {
        last_slash(s.drop_last())
    }
}

/// The final component of a path, as `std::path::Path::file_name` gives
/// it: slashes separate components, empty components and `.` are skipped,
/// and a path that ends in `..`, or that has no component left, has none.
pub open spec fn file_name(s: Seq<char>) -> Option<Seq<char>>
    decreases s.len(),
{
    let i = last_slash(s);
    let seg = s.subrange(i + 1, s.len() as int);
    if seg.len() == 0 || seg == seq!['.'] {
        if i < 0 {
            None
        } else {
            proof {
                lemma_last_slash(s);
            }
            file_name(s.subrange(0, i))
        }
    } else if seg == seq!['.', '.'] {
        None
    } else {
        Some(seg)
    }
}

/// The name an uploaded file is kept under: the final component of the
/// name the client sent (backslashes read as slashes), or `unknown.txt`
/// where there is none.
pub open spec fn safe_file_name(raw: Seq<char>) -> Seq<char> {
    match file_name(slashed(raw)) {
        Some(n) => n,
        None => "unknown.txt"@,
    }
}

/// `last_slash` is the position of a slash with none after it, or -1.
pub proof fn lemma_last_slash(s: Seq<char>)
    ensures
        -1 <= last_slash(s) < s.len(),
        last_slash(s) >= 0 ==> s[last_slash(s)] == '/',
        forall|j: int| last_slash(s) < j < s.len() ==> s[j] != '/',
    decreases s.len(),
{
    if s.len() > 0 && s.last() != '/' {
        let t = s.drop_last();
        lemma_last_slash(t);
        assert forall|j: int| last_slash(s) < j < s.len() implies s[j] != '/' by {
            if j < s.len() - 1 {
                assert(s[j] == t[j]);
            }
        }
    }
}

proof fn lemma_last_slash_prefix(s: Seq<char>, end: int)
    requires
        0 <= end <= s.len(),
    ensures
        last_slash(s.subrange(0, end)) == last_slash_before(s, end),
    decreases end,
{
    if end > 0 {
        assert(s.subrange(0, end).drop_last() =~= s.subrange(0, end - 1));
        lemma_last_slash_prefix(s, end - 1);
    }
}

/// The position of the last slash before `end`, or -1.
spec fn last_slash_before(s: Seq<char>, end: int) -> int
    decreases end,
{
    if end <= 0 {
        -1
    } else if s[end - 1] == '/' {
        end - 1
    } else {
        last_slash_before(s, end - 1)
    }
}

/// The position of the last slash in `v[..end]`, if there is one.
fn find_last_slash(v: &Vec<char>, end: usize) -> (r: Option<usize>)
    requires
        end <= v.len(),
    ensures
        match r {
            Some(k) => k < end && last_slash(v@.subrange(0, end as int)) == k,
            None => last_slash(v@.subrange(0, end as int)) == -1,
        },
{
    proof {
        lemma_last_slash_prefix(v@, end as int);
    }
    let mut k = end;
    while k > 0
        invariant
            k <= end <= v.len(),
            last_slash(v@.subrange(0, end as int)) == last_slash_before(v@, end as int),
            last_slash_before(v@, end as int) == last_slash_before(v@, k as int),
        decreases k,
    {
        if v[k - 1] == '/' {
            assert(last_slash_before(v@, k as int) == k - 1);
            return Some(k - 1);
        }
        k = k - 1;
    }
    None
}

/// The characters of `s` with every backslash replaced by a slash.
fn slash_chars(s: &str) -> (v: Vec<char>)
    ensures
        v@ == slashed(s@),
{
    let cs = chars_of(s);
    let mut v: Vec<char> = Vec::new();
    let mut i: usize = 0;
    while i < cs.len()
        invariant
            i <= cs@.len(),
            cs@ == s@,
            v@ == slashed(s@).take(i as int),
        decreases cs@.len() - i,
    {
        let c = cs[i];
        v.push(if c == '\\' { '/' } else { c });
        i = i + 1;
    }
    assert(slashed(s@).take(i as int) =~= slashed(s@));
    v
}

/// The characters `v[from..to]`.
fn slice_chars(v: &Vec<char>, from: usize, to: usize) -> (r: Vec<char>)
    requires
        from <= to <= v.len(),
    ensures
        r@ == v@.subrange(from as int, to as int),
{
    let mut r: Vec<char> = Vec::new();
    let mut i = from;
    while i < to
        invariant
            from <= i <= to <= v.len(),
            r@ == v@.subrange(from as int, i as int),
        decreases to - i,
    {
        r.push(v[i]);
        i = i + 1;
    }
    r
}

/// The final component of the path `raw`, with backslashes read as
/// slashes.
pub fn final_component(raw: &str) -> (r: Option<String>)
    ensures
        match r {
            Some(n) => file_name(slashed(raw@)) == Some(n@),
            None => file_name(slashed(raw@)) is None,
        },
{
    let v = slash_chars(raw);
    let ghost s = v@;
    let mut end = v.len();
    assert(s.subrange(0, end as int) =~= s);
    loop
        invariant
            end <= v.len(),
            v@ == s,
            s == slashed(raw@),
            file_name(s) == file_name(s.subrange(0, end as int)),
        decreases end,
    {
        let found = find_last_slash(&v, end);
        let ghost p = s.subrange(0, end as int);
        proof {
            lemma_last_slash(p);
        }
        let start: usize = match found {
            Some(k) => k + 1,
            None => 0,
        };
        let ghost i = last_slash(p);
        assert(start == i + 1);
        let seg_len = end - start;
        assert(p.subrange(i + 1, p.len() as int) =~= s.subrange(start as int, end as int));
        let dot = seg_len == 1 && v[start] == '.';
        if seg_len == 0 || dot {
            if seg_len == 1 {
                assert(s.subrange(start as int, end as int) =~= seq!['.']);
            }
            match found {
                None => {
                    return None;
                },
                Some(k) => {
                    assert(p.subrange(0, k as int) =~= s.subrange(0, k as int));
                    end = k;
                },
            }
        } else {
            if seg_len == 1 {
                assert(s.subrange(start as int, end as int)[0] != '.');
            }
            let dots = seg_len == 2 && v[start] == '.' && v[start + 1] == '.';
            if dots {
                assert(s.subrange(start as int, end as int) =~= seq!['.', '.']);
                return None;
            }
            if seg_len == 2 {
                assert(s.subrange(start as int, end as int) != seq!['.', '.']) by {
                    if v@[start as int] != '.' {
                        assert(s.subrange(start as int, end as int)[0] != '.');
                    } else {
                        assert(s.subrange(start as int, end as int)[1] != '.');
                    }
                }
            }
            let seg = slice_chars(&v, start, end);
            return Some(string_from_chars(seg.as_slice()));
        }
    }
}

/// The name an uploaded file is kept under.
pub fn safe_filename(raw: &str) -> (r: String)
    ensures
        r@ == safe_file_name(raw@),
{
    match final_component(raw) {
        Some(n) => n,
        None => String::from_str("unknown.txt"),
    }
}

/// A file received in a multipart body.
#[derive(Debug)]
pub struct UploadFile {
    pub filename: Option<String>,
    pub content_type: Option<String>,
    pub content: Vec<u8>,
}

impl UploadFile {
    /// The file received under `filename` (already made safe), with its
    /// content type and bytes.
    pub fn received(filename: String, content_type: Option<String>, content: Vec<u8>) -> (r: Self)
        ensures
            r.filename == Some(filename),
            r.content_type == content_type,
            r.content@ == content@,
    {
        UploadFile { filename: Some(filename), content_type, content }
    }
}

/// What reading the next field of a multipart body gave.
#[derive(Debug)]
pub enum FieldEvent {
    /// A field, with the file name and content type it declares.
    Field { file_name: Option<String>, content_type: Option<String> },
    /// The body has no more fields.
    End,
    /// The next field could not be read; the message says why.
    Failed(String),
}

/// What to do after a field event.
#[derive(Debug)]
pub enum UploadStep {
    /// The field is not a file: read the next one.
    Skip,
    /// The field is the file: read its bytes and keep it under this name.
    Read { filename: String, content_type: Option<String> },
    /// Refuse the request.
    Reject(HTTPException),
}

/// The view of an optional string.
pub open spec fn opt_view(o: Option<String>) -> Option<Seq<char>> {
    match o {
        Some(s) => Some(s@),
        None => None,
    }
}

/// The exception for a body that is not valid multipart.
pub open spec fn multipart_refusal(e: Seq<char>) -> (u16, Seq<char>) {
    (400u16, "Multipart error: "@ + e)
}

/// The exception for a field that could not be read.
pub open spec fn field_refusal(e: Seq<char>) -> (u16, Seq<char>) {
    (400u16, "Multipart field error: "@ + e)
}

/// The exception for file bytes that could not be read.
pub open spec fn bytes_refusal(e: Seq<char>) -> (u16, Seq<char>) {
    (400u16, "Failed to read multipart bytes: "@ + e)
}

/// The exception for a body without a file.
pub open spec fn no_file() -> (u16, Seq<char>) {
    (400u16, "No file uploaded"@)
}

/// An exception, seen as its status code and detail.
pub open spec fn exc_view(e: HTTPException) -> (u16, Seq<char>) {
    (e.status_code, e.detail@)
}

/// The exception for a body that is not valid multipart.
pub fn multipart_error(e: &str) -> (r: HTTPException)
    ensures
        exc_view(r) == multipart_refusal(e@),
{
    HTTPException { status_code: 400, detail: concat("Multipart error: ", e) }
}

/// The exception for file bytes that could not be read.
pub fn bytes_error(e: &str) -> (r: HTTPException)
    ensures
        exc_view(r) == bytes_refusal(e@),
{
    HTTPException { status_code: 400, detail: concat("Failed to read multipart bytes: ", e) }
}

/// Decides what follows a field event: the first field that declares a
/// file name is the file, under its safe name; other fields are skipped;
/// the end of the body without a file, and an unreadable field, are
/// refused with 400.
pub fn next_step(ev: FieldEvent) -> (r: UploadStep)
    ensures
        match ev {
            FieldEvent::Field { file_name: Some(n), content_type } => r matches UploadStep::Read {
                filename,
                content_type: ct,
            } && filename@ == safe_file_name(n@) && ct == content_type,
            FieldEvent::Field { file_name: None, .. } => r is Skip,
            FieldEvent::End => r matches UploadStep::Reject(e) && exc_view(e) == no_file(),
            FieldEvent::Failed(m) => r matches UploadStep::Reject(e) && exc_view(e) == field_refusal(m@),
        },
{
    match ev {
        FieldEvent::Field { file_name: Some(n), content_type } => {
            UploadStep::Read { filename: safe_filename(n.as_str()), content_type }
        },
        FieldEvent::Field { file_name: None, .. } => UploadStep::Skip,
        FieldEvent::End => UploadStep::Reject(HTTPException::new(400, "No file uploaded")),
        FieldEvent::Failed(m) => UploadStep::Reject(
            HTTPException { status_code: 400, detail: concat("Multipart field error: ", m.as_str()) },
        ),
    }
}

} // verus!

verus! {

/// A name that is a single bare component: not empty, without slash or
/// backslash, and neither `.` nor `..`.
pub open spec fn bare_name(n: Seq<char>) -> bool {
    &&& n.len() > 0
    &&& !n.contains('/')
    &&& !n.contains('\\')
    &&& n != seq!['.']
    &&& n != seq!['.', '.']
}

proof fn lemma_file_name_bare(s: Seq<char>)
    requires
        !s.contains('\\'),
    ensures
        file_name(s) matches Some(n) ==> bare_name(n),
    decreases s.len(),
{
    lemma_last_slash(s);
    let i = last_slash(s);
    let seg = s.subrange(i + 1, s.len() as int);
    if seg.len() == 0 || seg == seq!['.'] {
        if i >= 0 {
            let p = s.subrange(0, i);
            assert(!p.contains('\\')) by {
                if p.contains('\\') {
                    let j = choose|j: int| 0 <= j < p.len() && p[j] == '\\';
                    assert(s[j] == '\\');
                }
            }
            lemma_file_name_bare(p);
        }
    } else if seg != seq!['.', '.'] {
        assert(!seg.contains('/')) by {
            if seg.contains('/') {
                let j = choose|j: int| 0 <= j < seg.len() && seg[j] == '/';
                assert(s[i + 1 + j] == '/');
            }
        }
        assert(!seg.contains('\\')) by {
            if seg.contains('\\') {
                let j = choose|j: int| 0 <= j < seg.len() && seg[j] == '\\';
                assert(s[i + 1 + j] == '\\');
            }
        }
    }
}

/// The name an uploaded file is kept under is always a bare name: it
/// cannot point outside the directory it is saved in.
pub proof fn lemma_safe_file_name_bare(raw: Seq<char>)
    ensures
        bare_name(safe_file_name(raw)),
{
    let s = slashed(raw);
    assert(!s.contains('\\')) by {
        if s.contains('\\') {
            let j = choose|j: int| 0 <= j < s.len() && s[j] == '\\';
            assert(s[j] == (if raw[j] == '\\' { '/' } else { raw[j] }));
        }
    }
    lemma_file_name_bare(s);
    reveal_strlit("unknown.txt");
    let u = "unknown.txt"@;
    assert(u[0] == 'u');
    assert(!u.contains('/')) by {
        if u.contains('/') {
            let j = choose|j: int| 0 <= j < u.len() && u[j] == '/';
        }
    }
    assert(!u.contains('\\')) by {
        if u.contains('\\') {
            let j = choose|j: int| 0 <= j < u.len() && u[j] == '\\';
        }
    }
    assert(u != seq!['.']) by {
        assert(u.len() != 1);
    }
    assert(u != seq!['.', '.']) by {
        assert(u.len() != 2);
    }
}

} // verus!

verus! {

proof fn lemma_last_slash_at(s: Seq<char>, k: int)
    requires
        0 <= k <= s.len(),
        k == 0 || s[k - 1] == '/',
        forall|j: int| k <= j < s.len() ==> s[j] != '/',
    ensures
        last_slash(s) == k - 1,
    decreases s.len(),
{
    if s.len() > k {
        let t = s.drop_last();
        lemma_last_slash_at(t, k);
    } else if k > 0 {
        assert(s.last() == '/');
    }
}

proof fn lemma_file_name_of_bare_tail(p: Seq<char>, n: Seq<char>)
    requires
        bare_name(n),
        p.len() == 0 || p.last() == '/',
    ensures
        file_name(p + n) == Some(n),
{
    let s = p + n;
    let k = p.len() as int;
    assert forall|j: int| k <= j < s.len() implies s[j] != '/' by {
        assert(s[j] == n[j - k]);
    }
    if k > 0 {
        assert(s[k - 1] == p.last());
    }
    lemma_last_slash_at(s, k);
    assert(s.subrange(k, s.len() as int) =~= n);
}

proof fn lemma_slashed_bare(n: Seq<char>)
    requires
        !n.contains('\\'),
    ensures
        slashed(n) == n,
{
    assert forall|j: int| 0 <= j < n.len() implies slashed(n)[j] == n[j] by {
        if n[j] == '\\' {
            assert(n.contains('\\'));
        }
    }
    assert(slashed(n) =~= n);
}

/// A client's file name that is already a bare name is kept exactly as it
/// was sent.
pub proof fn lemma_safe_file_name_keeps_bare(raw: Seq<char>)
    requires
        bare_name(raw),
    ensures
        safe_file_name(raw) == raw,
{
    lemma_slashed_bare(raw);
    lemma_file_name_of_bare_tail(Seq::empty(), raw);
    assert(Seq::<char>::empty() + raw =~= raw);
}

proof fn lemma_file_name_trailing(p: Seq<char>, n: Seq<char>, tail: Seq<char>)
    requires
        bare_name(n),
        p.len() == 0 || p.last() == '/',
        forall|j: int| 0 <= j < tail.len() ==> tail[j] == '/',
    ensures
        file_name(p + n + tail) == Some(n),
    decreases tail.len(),
{
    if tail.len() == 0 {
        assert(p + n + tail =~= p + n);
        lemma_file_name_of_bare_tail(p, n);
    } else {
        let s = p + n + tail;
        let t = tail.drop_last();
        assert(s.last() == '/');
        assert(last_slash(s) == s.len() - 1);
        assert(s.subrange(s.len() as int, s.len() as int).len() == 0);
        assert(s.subrange(0, s.len() - 1) =~= p + n + t);
        lemma_file_name_trailing(p, n, t);
    }
}

/// Of a client's file name whose last component is a bare name, after a
/// slash or a backslash and before any trailing slashes or backslashes,
/// exactly that component is kept, whatever precedes it.
pub proof fn lemma_safe_file_name_last_component(dir: Seq<char>, n: Seq<char>, tail: Seq<char>)
    requires
        bare_name(n),
        forall|j: int| 0 <= j < tail.len() ==> tail[j] == '/' || tail[j] == '\\',
    ensures
        safe_file_name(dir + seq!['/'] + n + tail) == n,
        safe_file_name(dir + seq!['\\'] + n + tail) == n,
{
    lemma_slashed_bare(n);
    let p = slashed(dir).push('/');
    let st = slashed(tail);
    assert(slashed(dir + seq!['/'] + n + tail) =~= p + n + st);
    assert(slashed(dir + seq!['\\'] + n + tail) =~= p + n + st);
    lemma_file_name_trailing(p, n, st);
}

} // verus!
