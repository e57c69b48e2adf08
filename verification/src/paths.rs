//! File paths as text, and the mapping from an input path to its output path.
//!
//! A path is a sequence of characters in which `/`, and nothing else,
//! separates the components. The file name is the last component, where
//! separators and `.` components at the end of the path are passed over:
//! `dir/a.png`, `dir/a.png/` and `dir/a.png/.` all have the file name
//! `a.png`. A path whose last component is `..` names no file, nor does one
//! that has no component left. A file name splits at its last `.` into stem
//! and extension, unless that `.` is its first character.

use vstd::prelude::*;
use vstd::string::StrSliceExecFns;
use vstd::string::StringExecFns;

use crate::format::ImageFormat;
use crate::text::{has_char, to_chars};

verus! {

/// Whether a character separates the components of a path. `/` does, and
/// nothing else.
pub open spec fn is_separator(c: char) -> bool {
    c == '/'
}

/// One past the last separator of `q`, or 0 where `q` has none.
pub open spec fn segment_start(q: Seq<char>) -> int
    decreases q.len(),
{
    if q.len() == 0 {
        0
    } else if is_separator(q.last()) {
        q.len() as int
    } else {
        segment_start(q.drop_last())
    }
}

/// What stands in `q` behind its last separator.
pub open spec fn last_segment(q: Seq<char>) -> Seq<char> {
    q.skip(segment_start(q))
}

/// What stands in `q` up to and including its last separator.
pub open spec fn before_last_segment(q: Seq<char>) -> Seq<char> {
    q.take(segment_start(q))
}

/// Where the last named component of `p` ends: the separators at the end
/// of `p` do not count, nor do components that are a single `.`.
pub open spec fn name_end(p: Seq<char>) -> int
    decreases p.len(),
{
    if p.len() == 0 {
        0
    } else if is_separator(p.last()) {
        name_end(p.drop_last())
    } else if p.last() == '.' && (p.len() == 1 || is_separator(p[p.len() - 2])) {
        name_end(p.drop_last())
    } else {
        p.len() as int
    }
}

/// `p` up to the end of its last named component.
pub open spec fn trimmed(p: Seq<char>) -> Seq<char> {
    p.take(name_end(p))
}

/// The index at which the file name of `p` starts.
pub open spec fn name_start(p: Seq<char>) -> int {
    segment_start(trimmed(p))
}

/// The part of `p` before its file name: up to and including the separator
/// in front of the file name, and empty where there is none.
pub open spec fn directory(p: Seq<char>) -> Seq<char> {
    before_last_segment(trimmed(p))
}

/// The file name of `p`: its last component, where separators and `.`
/// components at the end of `p` are passed over. It is empty where `p` has
/// no component left, and may be `..`, which names no file.
pub open spec fn file_name(p: Seq<char>) -> Seq<char> {
    last_segment(trimmed(p))
}

/// The index of the last `.` in `name`, or -1 where it has none.
pub open spec fn last_dot(name: Seq<char>) -> int
    decreases name.len(),
{
    if name.len() == 0 {
        -1
    } else if name.last() == '.' {
        name.len() - 1
    } else {
        last_dot(name.drop_last())
    }
}

/// The file name without its extension: all of it where it holds no `.` or
/// only a leading one, else what stands before its last `.`.
pub open spec fn stem(name: Seq<char>) -> Seq<char> {
    if last_dot(name) > 0 {
        name.take(last_dot(name))
    } else {
        name
    }
}

/// What follows the last `.` of the file name, where it has one that is not
/// its first character.
pub open spec fn extension(name: Seq<char>) -> Option<Seq<char>> {
    if last_dot(name) > 0 {
        Some(name.skip(last_dot(name) + 1))
    } else {
        None
    }
}

/// Whether `name` can name a file: it is not empty, not `.` and not `..`.
pub open spec fn is_file_name(name: Seq<char>) -> bool {
    name.len() > 0 && name != seq!['.'] && name != seq!['.', '.']
}

/// `dir` as a prefix for a file name: with one `/` added unless it ends in one.
pub open spec fn as_directory(dir: Seq<char>) -> Seq<char> {
    if dir.len() > 0 && dir.last() == '/' {
        dir
    } else {
        dir.push('/')
    }
}

/// The path that the conversion of `input` is written to. With an empty
/// `output_dir` it is `input` up to its file name, with the extension of the
/// file name replaced by `ext`; else it is the stem of `input` with `ext`,
/// directly inside `output_dir`.
pub open spec fn spec_output_path(input: Seq<char>, output_dir: Seq<char>, ext: Seq<char>) -> Seq<
    char,
> {
    let base = if output_dir.len() == 0 {
        directory(input)
    } else {
        as_directory(output_dir)
    };
    base + stem(file_name(input)) + seq!['.'] + ext
}

/// The last segment starts inside the text.
pub proof fn lemma_segment_start_bounds(p: Seq<char>)
    ensures
        0 <= segment_start(p) <= p.len(),
    decreases p.len(),
{
    if p.len() > 0 && p.last() != '/' {
        lemma_segment_start_bounds(p.drop_last());
    }
}

/// A `/` stands right before the last segment, unless that segment starts
/// the text, and none stands inside it.
pub proof fn lemma_segment_start_splits(p: Seq<char>)
    ensures
        0 <= segment_start(p) <= p.len(),
        segment_start(p) > 0 ==> p[segment_start(p) - 1] == '/',
        forall|j: int| segment_start(p) <= j < p.len() ==> p[j] != '/',
    decreases p.len(),
{
    if p.len() > 0 && p.last() != '/' {
        let front = p.drop_last();
        lemma_segment_start_splits(front);
        assert forall|j: int| segment_start(p) <= j < p.len() implies p[j] != '/' by {
            if j < front.len() {
                assert(front[j] == p[j]);
            }
        }
    }
}

/// Where `tail` holds no `/` and `head` is empty or ends in one, the last
/// segment of `head + tail` is `tail`.
pub proof fn lemma_segment_start_concat(head: Seq<char>, tail: Seq<char>)
    requires
        head.len() == 0 || head.last() == '/',
        !has_char(tail, '/'),
    ensures
        segment_start(head + tail) == head.len(),
        before_last_segment(head + tail) == head,
        last_segment(head + tail) == tail,
    decreases tail.len(),
{
    let p = head + tail;
    if tail.len() == 0 {
        assert(p == head);
        if head.len() > 0 {
        }
    } else {
        assert(p.last() == tail.last());
        assert(tail[tail.len() - 1] != '/');
        assert(p.drop_last() == head + tail.drop_last());
        assert(!has_char(tail.drop_last(), '/')) by {
            if has_char(tail.drop_last(), '/') {
                let front = tail.drop_last();
                let i = choose|i: int| 0 <= i < front.len() && front[i] == '/';
                assert(tail[i] == '/');
            }
        }
        lemma_segment_start_concat(head, tail.drop_last());
    }
    assert(p.take(head.len() as int) == head);
    assert(p.skip(head.len() as int) == tail);
}

/// The last `.` lies inside the name, a `.` stands there, and none follows it.
pub proof fn lemma_last_dot_splits(name: Seq<char>)
    ensures
        -1 <= last_dot(name) < name.len(),
        last_dot(name) >= 0 ==> name[last_dot(name)] == '.',
        forall|j: int| last_dot(name) < j < name.len() ==> name[j] != '.',
    decreases name.len(),
{
    if name.len() > 0 && name.last() != '.' {
        let front = name.drop_last();
        lemma_last_dot_splits(front);
        assert forall|j: int| last_dot(name) < j < name.len() implies name[j] != '.' by {
            if j < front.len() {
                assert(front[j] == name[j]);
            }
        }
    }
}

/// Where `ext` holds no `.`, the last `.` of `front + "." + ext` is the one
/// written between the two.
pub proof fn lemma_last_dot_concat(front: Seq<char>, ext: Seq<char>)
    requires
        !has_char(ext, '.'),
    ensures
        last_dot(front + seq!['.'] + ext) == front.len(),
    decreases ext.len(),
{
    let name = front + seq!['.'] + ext;
    if ext.len() == 0 {
        assert(name.last() == '.');
    } else {
        assert(name.last() == ext.last());
        assert(ext[ext.len() - 1] != '.');
        assert(name.drop_last() == front + seq!['.'] + ext.drop_last());
        assert(!has_char(ext.drop_last(), '.')) by {
            if has_char(ext.drop_last(), '.') {
                let i = choose|i: int| 0 <= i < ext.drop_last().len() && ext.drop_last()[i] == '.';
                assert(ext[i] == '.');
            }
        }
        lemma_last_dot_concat(front, ext.drop_last());
    }
}

/// The stem of a file name is not empty, and holds no `/` where the name
/// holds none.
pub proof fn lemma_stem_of_file_name(name: Seq<char>)
    requires
        name.len() > 0,
    ensures
        stem(name).len() > 0,
        !has_char(name, '/') ==> !has_char(stem(name), '/'),
{
    lemma_last_dot_splits(name);
    if has_char(stem(name), '/') {
        let i = choose|i: int| 0 <= i < stem(name).len() && stem(name)[i] == '/';
        assert(name[i] == '/');
    }
}

/// The last named component ends inside the path, and not on a separator.
pub proof fn lemma_name_end_bounds(p: Seq<char>)
    ensures
        0 <= name_end(p) <= p.len(),
        name_end(p) > 0 ==> !is_separator(p[name_end(p) - 1]),
    decreases p.len(),
{
    if p.len() > 0 {
        lemma_name_end_bounds(p.drop_last());
    }
}

/// A path that ends in a character of a name, and not in a `.` component,
/// has nothing to pass over.
pub proof fn lemma_trimmed_of_named(p: Seq<char>)
    requires
        p.len() > 0,
        !is_separator(p.last()),
        p.last() == '.' ==> p.len() > 1 && !is_separator(p[p.len() - 2]),
    ensures
        name_end(p) == p.len(),
        trimmed(p) == p,
{
    assert(p.take(p.len() as int) == p);
}

/// A separator at the end of a path changes neither its file name nor what
/// stands before the file name.
pub proof fn lemma_separator_at_end_is_passed_over(p: Seq<char>)
    ensures
        file_name(p.push('/')) == file_name(p),
        directory(p.push('/')) == directory(p),
{
    let longer = p.push('/');
    lemma_name_end_bounds(p);
    assert(longer.drop_last() == p);
    assert(longer.take(name_end(p)) == p.take(name_end(p)));
}

/// Nor does a `.` component at the end of a path.
pub proof fn lemma_dot_at_end_is_passed_over(p: Seq<char>)
    requires
        p.len() == 0 || is_separator(p.last()),
    ensures
        file_name(p.push('.')) == file_name(p),
        directory(p.push('.')) == directory(p),
{
    let longer = p.push('.');
    lemma_name_end_bounds(p);
    assert(longer.drop_last() == p);
    if p.len() > 0 {
        assert(longer[longer.len() - 2] == p.last());
    }
    assert(longer.take(name_end(p)) == p.take(name_end(p)));
}

/// Finds where the last named component ends.
fn find_name_end(chars: &Vec<char>) -> (end: usize)
    ensures
        end == name_end(chars@),
        end <= chars.len(),
{
    let mut end: usize = chars.len();
    assert(chars@.take(end as int) == chars@);
    while end > 0 && (chars[end - 1] == '/' || (chars[end - 1] == '.' && (end == 1 || chars[end
        - 2] == '/')))
        invariant
            end <= chars.len(),
            name_end(chars@) == name_end(chars@.take(end as int)),
        decreases end,
    {
        assert(chars@.take(end as int).drop_last() == chars@.take(end - 1));
        end -= 1;
    }
    end
}

/// Finds where the last segment starts.
fn find_segment_start(chars: &Vec<char>) -> (ns: usize)
    ensures
        ns == segment_start(chars@),
{
    let mut ns: usize = 0;
    let mut i: usize = 0;
    while i < chars.len()
        invariant
            i <= chars.len(),
            ns <= i,
            ns == segment_start(chars@.take(i as int)),
        decreases chars.len() - i,
    {
        assert(chars@.take(i + 1).drop_last() == chars@.take(i as int));
        assert(chars@.take(i + 1).last() == chars@[i as int]);
        if chars[i] == '/' {
            ns = i + 1;
        }
        i += 1;
    }
    assert(chars@.take(chars@.len() as int) == chars@);
    ns
}

/// Finds the last `.` at or behind `from`, counted from `from`.
fn find_last_dot(chars: &Vec<char>, from: usize) -> (dot: Option<usize>)
    requires
        from <= chars.len(),
    ensures
        match dot {
            Some(k) => k == last_dot(chars@.skip(from as int)) && from + k < chars.len(),
            None => last_dot(chars@.skip(from as int)) == -1,
        },
{
    let ghost name = chars@.skip(from as int);
    let mut dot: Option<usize> = None;
    let mut i: usize = from;
    while i < chars.len()
        invariant
            from <= i <= chars.len(),
            name == chars@.skip(from as int),
            match dot {
                Some(k) => k == last_dot(name.take(i - from)) && from + k < i,
                None => last_dot(name.take(i - from)) == -1,
            },
        decreases chars.len() - i,
    {
        assert(name.take(i - from + 1).drop_last() == name.take(i - from));
        assert(name.take(i - from + 1).last() == chars@[i as int]);
        if chars[i] == '.' {
            dot = Some(i - from);
        }
        i += 1;
    }
    assert(name.take(name.len() as int) == name);
    dot
}

/// Where the stem of the last segment ends, as an index into the text.
fn find_stem_end(chars: &Vec<char>, ns: usize) -> (end: usize)
    requires
        ns == segment_start(chars@),
    ensures
        ns <= end <= chars.len(),
        chars@.subrange(ns as int, end as int) == stem(last_segment(chars@)),
        end < chars.len() ==> extension(last_segment(chars@)) == Some(chars@.skip(end + 1)),
        end == chars.len() ==> extension(last_segment(chars@)) is None,
{
    proof {
        lemma_segment_start_bounds(chars@);
    }
    let ghost name = last_segment(chars@);
    match find_last_dot(chars, ns) {
        Some(k) if k > 0 => {
            assert(chars@.subrange(ns as int, ns + k) == name.take(k as int));
            assert(chars@.skip(ns + k + 1) == name.skip(k + 1));
            ns + k
        },
        _ => {
            assert(chars@.subrange(ns as int, chars@.len() as int) == name);
            chars.len()
        },
    }
}

/// What is known of a candidate in contracts: its path and the format that
/// its content was recognised as.
pub struct CandidateView {
    pub path: Seq<char>,
    pub format: ImageFormat,
}

/// A file to convert: a path that names a file, and the format of the file.
pub struct CandidatePath {
    path: String,
    chars: Vec<char>,
    name_start: usize,
    format: ImageFormat,
}

impl View for CandidatePath {
    type V = CandidateView;

    closed spec fn view(&self) -> CandidateView {
        CandidateView { path: self.path@, format: self.format }
    }
}

impl CandidatePath {
    #[verifier::type_invariant]
    spec fn well_formed(self) -> bool {
        &&& self.chars@ == trimmed(self.path@)
        &&& self.name_start == name_start(self.path@)
        &&& is_file_name(file_name(self.path@))
    }

    /// Makes a candidate of a path and the format of the file behind it.
    /// There is none for a path whose last component cannot name a file.
    pub fn new(path: String, format: ImageFormat) -> (r: Option<CandidatePath>)
        ensures
            r is Some <==> is_file_name(file_name(path@)),
            r matches Some(c) ==> c@ == (CandidateView { path: path@, format }),
    {
        let mut chars = to_chars(path.as_str());
        let end = find_name_end(&chars);
        chars.truncate(end);
        assert(chars@ == trimmed(path@));
        let ns = find_segment_start(&chars);
        proof {
            lemma_segment_start_bounds(chars@);
        }
        let n = chars.len() - ns;
        let ghost name = file_name(path@);
        assert(name.len() == n);
        if n == 0 {
            return None;
        }
        assert(name[0] == chars@[ns as int]);
        if n == 1 && chars[ns] == '.' {
            assert(name == seq!['.']);
            return None;
        }
        if n == 2 {
            assert(name[1] == chars@[ns + 1]);
            if chars[ns] == '.' && chars[ns + 1] == '.' {
                assert(name == seq!['.', '.']);
                return None;
            }
        }
        assert(name != seq!['.']) by {
            let dot = seq!['.'];
            assert(dot.len() == 1 && dot[0] == '.');
        }
        assert(name != seq!['.', '.']) by {
            let dots = seq!['.', '.'];
            assert(dots.len() == 2 && dots[0] == '.' && dots[1] == '.');
        }
        Some(CandidatePath { path, chars, name_start: ns, format })
    }

    /// The path of the file. Its last component names a file.
    pub fn path(&self) -> (r: &str)
        ensures
            r@ == self@.path,
            is_file_name(file_name(r@)),
    {
        proof {
            use_type_invariant(self);
        }
        self.path.as_str()
    }

    /// The file name: the last component of the path.
    pub fn file_name(&self) -> (r: &str)
        ensures
            r@ == file_name(self@.path),
            is_file_name(r@),
    {
        proof {
            use_type_invariant(self);
            lemma_name_end_bounds(self.path@);
            lemma_segment_start_bounds(self.chars@);
            assert(self.path@.subrange(self.name_start as int, self.chars@.len() as int)
                == self.chars@.skip(self.name_start as int));
        }
        self.path.as_str().substring_char(self.name_start, self.chars.len())
    }

    /// The characters of the file name.
    pub(crate) fn name_chars(&self) -> (r: &[char])
        ensures
            r@ == file_name(self@.path),
    {
        proof {
            use_type_invariant(self);
            lemma_segment_start_bounds(self.chars@);
        }
        let all = self.chars.as_slice();
        let (_, name) = all.split_at(self.name_start);
        name
    }

    /// The format that the content of the file was recognised as.
    pub fn format(&self) -> (r: ImageFormat)
        ensures
            r == self@.format,
    {
        self.format
    }
}

/// The extension in a path, where the path names a file that has one.
pub open spec fn spec_extension_of(path: Seq<char>) -> Option<Seq<char>> {
    if is_file_name(file_name(path)) {
        extension(file_name(path))
    } else {
        None
    }
}

/// The format that the extension in a path names; `Unknown` where the path
/// has no extension.
pub open spec fn spec_format_of_path(path: Seq<char>) -> ImageFormat {
    match spec_extension_of(path) {
        Some(ext) => ImageFormat::spec_from_extension(ext),
        None => ImageFormat::Unknown,
    }
}

/// Extracts the extension from a path: what follows the last `.` of the
/// file name.
pub fn extension_of(path: &str) -> (r: Option<String>)
    ensures
        r.deep_view() == spec_extension_of(path@),
{
    let mut chars = to_chars(path);
    let name_end = find_name_end(&chars);
    chars.truncate(name_end);
    assert(chars@ == trimmed(path@));
    let ns = find_segment_start(&chars);
    let end = find_stem_end(&chars, ns);
    let n = chars.len();
    let ghost name = file_name(path@);
    proof {
        lemma_segment_start_bounds(chars@);
        assert(name.len() == n - ns);
    }
    if end == n {
        return None;
    }
    proof {
        lemma_last_dot_splits(name);
        assert(name.len() >= 2);
        assert(name != seq!['.']) by {
            let dot = seq!['.'];
            assert(dot.len() == 1);
        }
    }
    if n - ns == 2 && chars[ns] == '.' && chars[ns + 1] == '.' {
        assert(name[0] == chars@[ns as int]);
        assert(name[1] == chars@[ns + 1]);
        assert(name == seq!['.', '.']);
        return None;
    }
    proof {
        assert(name != seq!['.', '.']) by {
            let dots = seq!['.', '.'];
            assert(dots.len() == 2 && dots[0] == '.' && dots[1] == '.');
            assert(name[0] == chars@[ns as int]);
            assert(name[1] == chars@[ns + 1]);
        }
        assert(chars@.skip(end + 1) == path@.subrange(end + 1, n as int));
    }
    let ext = path.substring_char(end + 1, n);
    Some(String::from_str(ext))
}

impl ImageFormat {
    /// Determine the image format based on the extension in a path.
    pub fn from_path(path: &str) -> (r: ImageFormat)
        ensures
            r == spec_format_of_path(path@),
    {
        match extension_of(path) {
            Some(ext) => ImageFormat::from_extension(ext.as_str()),
            None => ImageFormat::Unknown,
        }
    }
}

/// Whether a directory given as text ends in a `/`.
fn ends_in_separator(dir: &str) -> (r: bool)
    ensures
        r == (dir@.len() > 0 && dir@.last() == '/'),
{
    let n = dir.unicode_len();
    n > 0 && dir.get_char(n - 1) == '/'
}

/// Derives the destination path for a given input path, output directory and
/// target format. An empty `output_dir` keeps the output beside the input.
pub fn output_path(input: &CandidatePath, output_dir: &str, target: &ImageFormat) -> (r: String)
    ensures
        r@ == spec_output_path(input@.path, output_dir@, target.spec_extension()),
{
    proof {
        use_type_invariant(input);
        reveal_strlit("/");
        reveal_strlit(".");
    }
    let ns = input.name_start;
    let end = find_stem_end(&input.chars, ns);
    let path = input.path.as_str();
    proof {
        lemma_name_end_bounds(path@);
        assert(path@.subrange(0, ns as int) == input.chars@.take(ns as int));
        assert(path@.subrange(ns as int, end as int) == input.chars@.subrange(
            ns as int,
            end as int,
        ));
    }
    let mut out = if output_dir.is_empty() {
        let dir = path.substring_char(0, ns);
        String::from_str(dir)
    } else {
        let mut dir = String::from_str(output_dir);
        if !ends_in_separator(output_dir) {
            dir.append("/");
            assert(dir@ == output_dir@.push('/'));
        }
        dir
    };
    out.append(path.substring_char(ns, end));
    out.append(".");
    out.append(target.extension());
    out
}

/// Derives the destination paths of all candidates, in their order.
pub fn output_paths(candidates: &Vec<CandidatePath>, output_dir: &str, target: &ImageFormat) -> (r:
    Vec<String>)
    ensures
        r.len() == candidates.len(),
        forall|i: int|
            0 <= i < r.len() ==> (#[trigger] r[i])@ == spec_output_path(
                candidates[i]@.path,
                output_dir@,
                target.spec_extension(),
            ),
{
    let mut outputs: Vec<String> = Vec::new();
    let mut i: usize = 0;
    while i < candidates.len()
        invariant
            i <= candidates.len(),
            outputs.len() == i,
            forall|k: int|
                0 <= k < i ==> (#[trigger] outputs[k])@ == spec_output_path(
                    candidates[k]@.path,
                    output_dir@,
                    target.spec_extension(),
                ),
        decreases candidates.len() - i,
    {
        outputs.push(output_path(&candidates[i], output_dir, target));
        i += 1;
    }
    outputs
}

/// Whether `(i, j)` is the first pair of places that hold the same path:
/// `j` is the first place whose path stood at an earlier place, and `i` is
/// the first such place.
pub open spec fn is_first_collision(paths: Seq<Seq<char>>, i: int, j: int) -> bool {
    &&& 0 <= i < j < paths.len()
    &&& paths[i] == paths[j]
    &&& forall|a: int| 0 <= a < i ==> paths[a] != paths[j]
    &&& forall|a: int, b: int| 0 <= a < b < j ==> paths[a] != paths[b]
}

/// Whether no two places hold the same path.
pub open spec fn all_distinct(paths: Seq<Seq<char>>) -> bool {
    forall|a: int, b: int| 0 <= a < b < paths.len() ==> paths[a] != paths[b]
}

/// Looks for two inputs that would be written to the same output path, as
/// happens in a flat output directory to inputs of the same stem. Gives the
/// first such pair, or `None` where every output path is used once.
pub fn first_collision(outputs: &Vec<String>) -> (r: Option<(usize, usize)>)
    ensures
        match r {
            Some((i, j)) => is_first_collision(outputs.deep_view(), i as int, j as int),
            None => all_distinct(outputs.deep_view()),
        },
{
    let ghost paths = outputs.deep_view();
    let mut j: usize = 0;
    while j < outputs.len()
        invariant
            j <= outputs.len(),
            paths == outputs.deep_view(),
            forall|a: int, b: int| 0 <= a < b < j ==> paths[a] != paths[b],
        decreases outputs.len() - j,
    {
        let mut i: usize = 0;
        while i < j
            invariant
                i <= j < outputs.len(),
                paths == outputs.deep_view(),
                forall|a: int| 0 <= a < i ==> paths[a] != paths[j as int],
                forall|a: int, b: int| 0 <= a < b < j ==> paths[a] != paths[b],
            decreases j - i,
        {
            assert(paths[i as int] == outputs@[i as int]@);
            assert(paths[j as int] == outputs@[j as int]@);
            if outputs[i] == outputs[j] {
                return Some((i, j));
            }
            i += 1;
        }
        j += 1;
    }
    None
}

/// The parts of an output path: it lies directly in the directory chosen for
/// it, and its file name is the stem of the input, a `.` and the extension.
pub proof fn lemma_output_path_parts(input: Seq<char>, output_dir: Seq<char>, ext: Seq<char>)
    requires
        is_file_name(file_name(input)),
        !has_char(ext, '/'),
        !has_char(ext, '.'),
    ensures
        ({
            let out = spec_output_path(input, output_dir, ext);
            &&& directory(out) == if output_dir.len() == 0 {
                directory(input)
            } else {
                as_directory(output_dir)
            }
            &&& file_name(out) == stem(file_name(input)) + seq!['.'] + ext
            &&& stem(file_name(out)) == stem(file_name(input))
            &&& extension(file_name(out)) == Some(ext)
            &&& ext.len() > 0 ==> is_file_name(file_name(out))
        }),
{
    let name = file_name(input);
    let base = if output_dir.len() == 0 {
        directory(input)
    } else {
        as_directory(output_dir)
    };
    let front = stem(name);
    let tail = front + seq!['.'] + ext;
    let out = spec_output_path(input, output_dir, ext);
    let whole = trimmed(input);
    lemma_segment_start_splits(whole);
    assert(!has_char(name, '/')) by {
        if has_char(name, '/') {
            let i = choose|i: int| 0 <= i < name.len() && name[i] == '/';
            assert(whole[segment_start(whole) + i] == '/');
        }
    }
    assert(directory(input).len() == 0 || directory(input).last() == '/');
    lemma_stem_of_file_name(name);
    assert(!has_char(tail, '/')) by {
        if has_char(tail, '/') {
            let i = choose|i: int| 0 <= i < tail.len() && tail[i] == '/';
            if i < front.len() {
                assert(front[i] == '/');
            } else if i > front.len() {
                assert(ext[i - front.len() - 1] == '/');
            }
        }
    }
    assert(out == base + tail);
    assert(trimmed(out) == out) by {
        assert(out.last() == tail.last());
        assert(out[out.len() - 2] == tail[tail.len() - 2]);
        if ext.len() > 0 {
            assert(tail.last() == ext.last());
            assert(ext[ext.len() - 1] != '/' && ext[ext.len() - 1] != '.');
        } else {
            assert(tail[tail.len() - 2] == front.last());
            assert(front[front.len() - 1] != '/');
        }
        lemma_trimmed_of_named(out);
    }
    lemma_segment_start_concat(base, tail);
    lemma_last_dot_concat(front, ext);
    assert(tail.take(front.len() as int) == front);
    assert(tail.skip(front.len() as int + 1) == ext);
    assert(tail != seq!['.']) by {
        assert(tail.len() >= 2);
    }
    if ext.len() > 0 {
        assert(tail != seq!['.', '.']) by {
            if tail == seq!['.', '.'] {
                assert(tail.len() == 2);
                assert(tail[1] == ext[0]);
                assert(ext[0] == '.');
            }
        }
    }
}

/// In a flat output directory two inputs are written to the same path
/// exactly if they have the same stem, whatever directories they lie in.
pub proof fn lemma_flat_outputs_collide_by_stem(
    a: Seq<char>,
    b: Seq<char>,
    output_dir: Seq<char>,
    ext: Seq<char>,
)
    requires
        output_dir.len() > 0,
    ensures
        spec_output_path(a, output_dir, ext) == spec_output_path(b, output_dir, ext) <==> stem(
            file_name(a),
        ) == stem(file_name(b)),
{
    let base = as_directory(output_dir);
    let tail = seq!['.'] + ext;
    let x = stem(file_name(a));
    let y = stem(file_name(b));
    let out_a = spec_output_path(a, output_dir, ext);
    let out_b = spec_output_path(b, output_dir, ext);
    assert(out_a == base + x + tail);
    assert(out_b == base + y + tail);
    if out_a == out_b {
        assert(x.len() == y.len());
        assert(x =~= y) by {
            assert forall|i: int| 0 <= i < x.len() implies x[i] == y[i] by {
                assert(out_a[base.len() + i] == x[i]);
                assert(out_b[base.len() + i] == y[i]);
            }
        }
    }
}

/// Converting in place changes the extension and nothing else: the output
/// has the directory and the stem of the input, and the extension of the
/// target format.
pub proof fn lemma_in_place_changes_extension_only(input: Seq<char>, target: ImageFormat)
    requires
        is_file_name(file_name(input)),
    ensures
        ({
            let out = spec_output_path(input, Seq::<char>::empty(), target.spec_extension());
            &&& directory(out) == directory(input)
            &&& stem(file_name(out)) == stem(file_name(input))
            &&& extension(file_name(out)) == Some(target.spec_extension())
            &&& out == directory(input) + stem(file_name(input)) + seq!['.']
                + target.spec_extension()
        }),
{
    target.lemma_extension_is_plain();
    lemma_output_path_parts(input, Seq::<char>::empty(), target.spec_extension());
}

} // verus!
