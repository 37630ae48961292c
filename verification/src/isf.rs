//! ISF (Interactive Shader Format) shaders: what the `isf` crate reads of a
//! shader's source, the metadata kept for each shader file, and the GLSL
//! declarations generated for its inputs.
use vstd::prelude::*;
use vstd::string::StrSliceExecFns;
use vstd::string::StringExecFns;

verus! {

/// The parsed ISF header of a shader (`isf::Isf`).
#[verifier::external_type_specification]
#[verifier::external_body]
pub struct ExIsf(isf::Isf);

/// Why the `isf` crate could not parse a shader (`isf::ParseError`).
#[verifier::external_type_specification]
#[verifier::external_body]
pub struct ExIsfParseError(isf::ParseError);

/// An I/O error (`std::io::Error`).
#[verifier::external_type_specification]
#[verifier::external_body]
pub struct ExIoError(std::io::Error);

/// A file system path (`std::path::PathBuf`).
#[verifier::external_type_specification]
#[verifier::external_body]
pub struct ExPathBuf(std::path::PathBuf);

/// A point in time of the system clock (`std::time::SystemTime`).
#[verifier::external_type_specification]
#[verifier::external_body]
pub struct ExSystemTime(std::time::SystemTime);

/// The type of an ISF input, without the values that come with it.
#[derive(Clone, Copy, Debug, PartialEq, Eq, Structural)]
pub enum IsfInputKind {
    Event,
    Bool,
    Long,
    Float,
    Point2d,
    Color,
    Image,
    Audio,
    AudioFft,
}

/// The inputs of a parsed ISF header (name and type of each, in order).
pub uninterp spec fn isf_inputs(def: isf::Isf) -> Seq<(Seq<char>, IsfInputKind)>;

/// The targets of the passes of a parsed ISF header, in order.
pub uninterp spec fn isf_pass_targets(def: isf::Isf) -> Seq<Option<Seq<char>>>;

/// What `isf::parse` makes of a shader source: `None` where it fails, else the
/// inputs and pass targets of the header it reads.
pub uninterp spec fn isf_parse(source: Seq<char>) -> Option<
    (Seq<(Seq<char>, IsfInputKind)>, Seq<Option<Seq<char>>>),
>;

/// Whether `c` is JSON whitespace.
pub open spec fn is_json_ws(c: char) -> bool {
    c == ' ' || c == '\t' || c == '\n' || c == '\r'
}

/// The first index from `i` on that is not JSON whitespace (the length where
/// the rest is whitespace).
pub open spec fn skip_ws(s: Seq<char>, i: int) -> int
    decreases s.len() - i,
{
    if 0 <= i < s.len() && is_json_ws(s[i]) {
        skip_ws(s, i + 1)
    } else {
        i
    }
}

/// `w` occurs in `s` at index `i`.
pub open spec fn word_at(s: Seq<char>, i: int, w: Seq<char>) -> bool {
    0 <= i && i + w.len() <= s.len() && s.subrange(i, i + w.len()) == w
}

/// A quoted ISF input type that the `isf` crate knows starts at index `i`.
pub open spec fn known_type_at(s: Seq<char>, i: int) -> bool {
    ||| word_at(s, i, "\"event\""@)
    ||| word_at(s, i, "\"bool\""@)
    ||| word_at(s, i, "\"long\""@)
    ||| word_at(s, i, "\"float\""@)
    ||| word_at(s, i, "\"point2D\""@)
    ||| word_at(s, i, "\"color\""@)
    ||| word_at(s, i, "\"image\""@)
    ||| word_at(s, i, "\"audio\""@)
    ||| word_at(s, i, "\"audioFFT\""@)
}

/// The `"TYPE"` key at index `i` is followed, across whitespace, by a colon
/// and a known type.
pub open spec fn known_type_entry(s: Seq<char>, i: int) -> bool {
    let a = skip_ws(s, i + "\"TYPE\""@.len());
    &&& a < s.len()
    &&& s[a] == ':'
    &&& known_type_at(s, skip_ws(s, a + 1))
}

/// The first index from `i` on at which `w` occurs in `s`.
pub open spec fn find_from(s: Seq<char>, w: Seq<char>, i: int) -> Option<int>
    decreases s.len() - i,
{
    if i < 0 || i >= s.len() || i + w.len() > s.len() {
        None
    } else if word_at(s, i, w) {
        Some(i)
    } else {
        find_from(s, w, i + 1)
    }
}

/// Where the JSON header that `isf::parse` reads lies in a source: from just
/// after the first `/*` up to the first `*/` after it; `None` where there is
/// no such comment (the crate then reports a missing comment).
pub open spec fn header_region(s: Seq<char>) -> Option<(int, int)> {
    match find_from(s, "/*"@, 0) {
        Some(a) => match find_from(s, "*/"@, a + "/*"@.len()) {
            Some(b) => Some((a + "/*"@.len(), b)),
            None => None,
        },
        None => None,
    }
}

/// The last index in `s[a..i]` that is not JSON whitespace; -1 where there is none.
pub open spec fn prev_non_ws(s: Seq<char>, a: int, i: int) -> int
    decreases i - a,
{
    if i <= a {
        -1
    } else if is_json_ws(s[i - 1]) {
        prev_non_ws(s, a, i - 1)
    } else {
        i - 1
    }
}

/// The header `s[a..b]` is read by the `isf` crate without panicking: it holds
/// no `\u` escape (through which a key or a type could be spelled in escapes),
/// every `"TYPE"` in it is followed by a colon and a type the crate knows, and
/// no `[` in it stands first in an array or after a comma, so no input is
/// written as an array (whose second element the crate would read as its type).
pub open spec fn header_types_known(s: Seq<char>, a: int, b: int) -> bool {
    &&& forall|i: int| a <= i && i + "\\u"@.len() <= b ==> !word_at(s, i, "\\u"@)
    &&& forall|i: int|
        a <= i && i + "\"TYPE\""@.len() <= b && word_at(s, i, "\"TYPE\""@) ==> known_type_entry(s, i)
    &&& forall|i: int|
        a <= i < b && s[i] == '[' ==> {
            let p = prev_non_ws(s, a, i);
            p < 0 || (s[p] != '[' && s[p] != ',')
        }
}

/// A source that `isf::parse` reads without panicking (the crate panics, by
/// `unimplemented!`, on an input whose TYPE it does not know): one with no
/// header comment, or whose header passes `header_types_known`. This admits
/// no source on which the crate panics, and leaves out a few it reads.
pub open spec fn isf_types_known(source: Seq<char>) -> bool {
    match header_region(source) {
        None => true,
        Some((a, b)) => header_types_known(source, a, b),
    }
}

/// Law of the header check: a `"TYPE"` key followed by a colon and then any of
/// the nine types the `isf` crate knows (event, bool, long, float, point2D,
/// color, image, audio, audioFFT) is accepted, with or without whitespace
/// between them.
pub proof fn law_known_types_accepted(s: Seq<char>, i: int, name: Seq<char>, ws1: int, ws2: int)
    requires
        word_at(s, i, "\"TYPE\""@),
        name == "\"event\""@ || name == "\"bool\""@ || name == "\"long\""@ || name == "\"float\""@ || name
            == "\"point2D\""@ || name == "\"color\""@ || name == "\"image\""@ || name == "\"audio\""@ || name
            == "\"audioFFT\""@,
        0 <= ws1,
        0 <= ws2,
        forall|k: int| i + "\"TYPE\""@.len() <= k < i + "\"TYPE\""@.len() + ws1 ==> is_json_ws(#[trigger] s[k]),
        i + "\"TYPE\""@.len() + ws1 < s.len(),
        s[i + "\"TYPE\""@.len() + ws1] == ':',
        forall|k: int|
            i + "\"TYPE\""@.len() + ws1 + 1 <= k < i + "\"TYPE\""@.len() + ws1 + 1 + ws2 ==> is_json_ws(
                #[trigger] s[k],
            ),
        word_at(s, i + "\"TYPE\""@.len() + ws1 + 1 + ws2, name),
    ensures
        known_type_entry(s, i),
{
    reveal_strlit("\"TYPE\"");
    reveal_strlit("\"event\"");
    reveal_strlit("\"bool\"");
    reveal_strlit("\"long\"");
    reveal_strlit("\"float\"");
    reveal_strlit("\"point2D\"");
    reveal_strlit("\"color\"");
    reveal_strlit("\"image\"");
    reveal_strlit("\"audio\"");
    reveal_strlit("\"audioFFT\"");
    let a = i + 6 + ws1;
    lemma_skip_ws_run(s, i + 6, ws1);
    let b = a + 1 + ws2;
    assert(name.len() > 0 && name[0] == '"');
    assert(s.subrange(b, b + name.len())[0] == name[0]);
    assert(s[b] == '"');
    lemma_skip_ws_run(s, a + 1, ws2);
    assert(skip_ws(s, a + 1) == b);
    assert(skip_ws(s, i + 6) == a);
}

proof fn lemma_skip_ws_run(s: Seq<char>, j: int, w: int)
    requires
        0 <= j,
        0 <= w,
        j + w < s.len(),
        forall|k: int| j <= k < j + w ==> is_json_ws(#[trigger] s[k]),
        !is_json_ws(s[j + w]),
    ensures
        skip_ws(s, j) == j + w,
    decreases w,
{
    if w > 0 {
        lemma_skip_ws_run(s, j + 1, w - 1);
    }
}

fn word_at_exec(s: &str, n: usize, i: usize, w: &str) -> (b: bool)
    requires
        n == s@.len(),
        i <= n,
    ensures
        b == word_at(s@, i as int, w@),
{
    let m = w.unicode_len();
    if m > n - i {
        return false;
    }
    let mut k: usize = 0;
    while k < m
        invariant
            m == w@.len(),
            n == s@.len(),
            i + m <= n,
            0 <= k <= m,
            forall|j: int| 0 <= j < k ==> s@[i + j] == w@[j],
        decreases m - k,
    {
        if s.get_char(i + k) != w.get_char(k) {
            assert(s@.subrange(i as int, i + m)[k as int] != w@[k as int]);
            return false;
        }
        k = k + 1;
    }
    assert(s@.subrange(i as int, i + m) =~= w@);
    true
}

fn skip_ws_exec(s: &str, n: usize, i: usize) -> (r: usize)
    requires
        n == s@.len(),
        i <= n,
    ensures
        r == skip_ws(s@, i as int),
        i <= r <= n,
{
    let mut j = i;
    while j < n
        invariant
            n == s@.len(),
            i <= j <= n,
            skip_ws(s@, i as int) == skip_ws(s@, j as int),
        decreases n - j,
    {
        let c = s.get_char(j);
        if !(c == ' ' || c == '\t' || c == '\n' || c == '\r') {
            return j;
        }
        j = j + 1;
    }
    j
}

fn known_type_entry_exec(s: &str, n: usize, i: usize) -> (b: bool)
    requires
        n == s@.len(),
        i <= n,
    ensures
        b == known_type_entry(s@, i as int),
{
    let key = "\"TYPE\"";
    let klen = key.unicode_len();
    if klen > n - i {
        proof {
            reveal_strlit("\"TYPE\"");
        }
        assert(skip_ws(s@, i + klen) == i + klen);
        return false;
    }
    let a = skip_ws_exec(s, n, i + klen);
    if a >= n || s.get_char(a) != ':' {
        return false;
    }
    let b = skip_ws_exec(s, n, a + 1);
    word_at_exec(s, n, b, "\"event\"") || word_at_exec(s, n, b, "\"bool\"") || word_at_exec(s, n, b, "\"long\"")
        || word_at_exec(s, n, b, "\"float\"") || word_at_exec(s, n, b, "\"point2D\"") || word_at_exec(
        s,
        n,
        b,
        "\"color\"",
    ) || word_at_exec(s, n, b, "\"image\"") || word_at_exec(s, n, b, "\"audio\"") || word_at_exec(
        s,
        n,
        b,
        "\"audioFFT\"",
    )
}

proof fn lemma_find_from(s: Seq<char>, w: Seq<char>, i: int)
    ensures
        find_from(s, w, i) matches Some(k) ==> i <= k && word_at(s, k, w),
    decreases s.len() - i,
{
    if !(i < 0 || i >= s.len() || i + w.len() > s.len()) && !word_at(s, i, w) {
        lemma_find_from(s, w, i + 1);
    }
}

fn find_from_exec(s: &str, n: usize, w: &str, i: usize) -> (r: Option<usize>)
    requires
        n == s@.len(),
        i <= n,
    ensures
        match r {
            Some(k) => find_from(s@, w@, i as int) == Some(k as int) && i <= k && k + w@.len() <= n,
            None => find_from(s@, w@, i as int) is None,
        },
{
    let m = w.unicode_len();
    let mut k = i;
    while k < n && m <= n - k
        invariant
            n == s@.len(),
            m == w@.len(),
            i <= k,
            find_from(s@, w@, i as int) == find_from(s@, w@, k as int),
        decreases n + 1 - k,
    {
        if word_at_exec(s, n, k, w) {
            return Some(k);
        }
        k = k + 1;
    }
    None
}

/// Whether `isf::parse` can be given `source` (see `isf_types_known`).
pub fn isf_types_known_in(source: &str) -> (b: bool)
    ensures
        b == isf_types_known(source@),
{
    proof {
        reveal_strlit("\\u");
        reveal_strlit("\"TYPE\"");
        reveal_strlit("/*");
        reveal_strlit("*/");
    }
    let n = source.unicode_len();
    let a = match find_from_exec(source, n, "/*", 0) {
        Some(k) => k + 2,
        None => return true,
    };
    let b = match find_from_exec(source, n, "*/", a) {
        Some(k) => k,
        None => return true,
    };
    assert(header_region(source@) == Some((a as int, b as int)));
    proof {
        lemma_find_from(source@, "*/"@, a as int);
    }
    let mut prev: Option<usize> = None;
    let mut i: usize = a;
    while i < b
        invariant
            n == source@.len(),
            a <= i <= b,
            b <= n,
            "\\u"@.len() == 2,
            "\"TYPE\""@.len() == 6,
            header_region(source@) == Some((a as int, b as int)),
            match prev {
                Some(p) => prev_non_ws(source@, a as int, i as int) == p && a <= p < i,
                None => prev_non_ws(source@, a as int, i as int) == -1,
            },
            forall|k: int| a <= k < i && k + 2 <= b ==> !word_at(source@, k, "\\u"@),
            forall|k: int|
                a <= k < i && k + 6 <= b && word_at(source@, k, "\"TYPE\""@) ==> known_type_entry(source@, k),
            forall|k: int|
                a <= k < i && source@[k] == '[' ==> {
                    let p = prev_non_ws(source@, a as int, k);
                    p < 0 || (source@[p] != '[' && source@[p] != ',')
                },
        decreases b - i,
    {
        if b - i >= 2 && word_at_exec(source, n, i, "\\u") {
            assert(a <= i && i + "\\u"@.len() <= b && word_at(source@, i as int, "\\u"@));
            assert(!header_types_known(source@, a as int, b as int));
            return false;
        }
        if b - i >= 6 && word_at_exec(source, n, i, "\"TYPE\"") && !known_type_entry_exec(source, n, i) {
            assert(a <= i && i + "\"TYPE\""@.len() <= b && word_at(source@, i as int, "\"TYPE\""@));
            assert(!header_types_known(source@, a as int, b as int));
            return false;
        }
        let c = source.get_char(i);
        let ghost p_i = prev_non_ws(source@, a as int, i as int);
        if c == '[' {
            match prev {
                Some(p) => {
                    let d = source.get_char(p);
                    if d == '[' || d == ',' {
                        return false;
                    }
                },
                None => {},
            }
        }
        assert(c == '[' ==> (p_i < 0 || (source@[p_i] != '[' && source@[p_i] != ',')));
        if !(c == ' ' || c == '\t' || c == '\n' || c == '\r') {
            prev = Some(i);
        }
        assert(prev_non_ws(source@, a as int, i + 1) == if is_json_ws(source@[i as int]) { p_i } else { i as int });
        i = i + 1;
    }
    true
}

/// Calls `isf::parse`, which reads the JSON header in the first `/* */` comment
/// of a shader source. Its result depends on the source alone: it is named by
/// `isf_parse`, and the header it returns holds the inputs and pass targets
/// that name gives. The crate panics on an input whose TYPE it does not know,
/// so only sources that pass `isf_types_known` are handed to it.
#[verifier::external_body]
pub(crate) fn parse_isf(source: &str) -> (r: Result<isf::Isf, isf::ParseError>)
    requires
        isf_types_known(source@),
    ensures
        r is Ok <==> isf_parse(source@) is Some,
        r matches Ok(def) ==> isf_parse(source@) == Some((isf_inputs(def), isf_pass_targets(def))),
{
    isf::parse(source)
}

/// Reads the number of inputs (`Isf::inputs`, `Vec::len`).
#[verifier::external_body]
pub(crate) fn isf_input_count(def: &isf::Isf) -> (n: usize)
    ensures
        n == isf_inputs(*def).len(),
{
    def.inputs.len()
}

/// Reads the name and type of input `i` (`Isf::inputs`, `Input::name`, `Input::ty`).
#[verifier::external_body]
pub(crate) fn isf_input_at(def: &isf::Isf, i: usize) -> (r: (String, IsfInputKind))
    requires
        i < isf_inputs(*def).len(),
    ensures
        r.0@ == isf_inputs(*def)[i as int].0,
        r.1 == isf_inputs(*def)[i as int].1,
{
    let input = &def.inputs[i];
    let kind = match input.ty {
        isf::InputType::Event => IsfInputKind::Event,
        isf::InputType::Bool(_) => IsfInputKind::Bool,
        isf::InputType::Long(_) => IsfInputKind::Long,
        isf::InputType::Float(_) => IsfInputKind::Float,
        isf::InputType::Point2d(_) => IsfInputKind::Point2d,
        isf::InputType::Color(_) => IsfInputKind::Color,
        isf::InputType::Image => IsfInputKind::Image,
        isf::InputType::Audio(_) => IsfInputKind::Audio,
        isf::InputType::AudioFft(_) => IsfInputKind::AudioFft,
    };
    (input.name.clone(), kind)
}

/// Reads the number of passes (`Isf::passes`, `Vec::len`).
#[verifier::external_body]
pub(crate) fn isf_pass_count(def: &isf::Isf) -> (n: usize)
    ensures
        n == isf_pass_targets(*def).len(),
{
    def.passes.len()
}

/// Reads the target of pass `i` (`Isf::passes`, `Pass::target`).
#[verifier::external_body]
pub(crate) fn isf_pass_target(def: &isf::Isf, i: usize) -> (r: Option<String>)
    requires
        i < isf_pass_targets(*def).len(),
    ensures
        match r {
            Some(t) => isf_pass_targets(*def)[i as int] == Some(t@),
            None => isf_pass_targets(*def)[i as int] is None,
        },
{
    def.passes[i].target.clone()
}

/// An ISF shader file: its name (the file stem), its path and its parsed header.
#[derive(Debug)]
pub struct IsfInfo {
    pub name: String,
    pub path: std::path::PathBuf,
    pub def: isf::Isf,
}

/// The name and path of an ISF shader file.
#[derive(Debug)]
pub struct IsfPathInfo {
    pub name: String,
    pub path: std::path::PathBuf,
}

/// Why an ISF shader file could not be read.
#[derive(Debug)]
pub enum IsfInfoReadError {
    IoError(std::io::Error),
    InvalidExt(Option<String>),
    InvalidName(Option<String>),
    ParseError(isf::ParseError),
}

/// Whether a file extension marks an ISF shader: exactly `fs`.
pub fn is_isf_extension(ext: Option<&str>) -> (b: bool)
    ensures
        b == (ext matches Some(e) && e@ == seq!['f', 's']),
{
    match ext {
        Some(e) => {
            if e.unicode_len() == 2 {
                let r = e.get_char(0) == 'f' && e.get_char(1) == 's';
                assert(r ==> e@ =~= seq!['f', 's']);
                r
            } else {
                false
            }
        },
        None => false,
    }
}

impl IsfInfo {
    /// Checks the extension of a shader file's path before it is read: an
    /// error carrying the extension unless it is `fs`.
    pub fn check_extension(ext: Option<String>) -> (r: Result<(), IsfInfoReadError>)
        ensures
            r is Ok <==> (ext matches Some(e) && e@ == seq!['f', 's']),
            r matches Err(err) ==> err matches IsfInfoReadError::InvalidExt(x) && x == ext,
    {
        let ok = match &ext {
            Some(e) => is_isf_extension(Some(e.as_str())),
            None => false,
        };
        if ok {
            Ok(())
        } else {
            Err(IsfInfoReadError::InvalidExt(ext))
        }
    }

    /// Builds the info of a shader file from its path, its file stem and its
    /// source: the source must parse as ISF, then the stem must be text. The
    /// stem is `None` where the path has none, `Some(Err(lossy))` where it is
    /// not valid Unicode (`lossy` its lossy text), `Some(Ok(name))` otherwise.
    pub fn from_source(path: std::path::PathBuf, stem: Option<Result<String, String>>, source: &str) -> (r: Result<
        IsfInfo,
        IsfInfoReadError,
    >)
        requires
            isf_types_known(source@),
        ensures
            isf_parse(source@) is None ==> r matches Err(IsfInfoReadError::ParseError(_)),
            isf_parse(source@) is Some ==> match stem {
                None => r matches Err(IsfInfoReadError::InvalidName(None)),
                Some(Err(lossy)) => r matches Err(IsfInfoReadError::InvalidName(Some(l))) && l == lossy,
                Some(Ok(name)) => r matches Ok(info) && info.name == name,
            },
            r matches Ok(info) ==> {
                &&& info.path == path
                &&& isf_parse(source@) == Some((isf_inputs(info.def), isf_pass_targets(info.def)))
            },
    {
        match parse_isf(source) {
            Err(e) => Err(IsfInfoReadError::ParseError(e)),
            Ok(def) => match stem {
                Some(Ok(name)) => Ok(IsfInfo { name, path, def }),
                Some(Err(lossy)) => Err(IsfInfoReadError::InvalidName(Some(lossy))),
                None => Err(IsfInfoReadError::InvalidName(None)),
            },
        }
    }
}

/// The platforms on which a default ISF library location is known.
#[derive(Clone, Copy, Debug, PartialEq, Eq, Structural)]
pub enum Platform {
    Windows,
    MacOs,
}

/// Where the ISF library is installed by default on a platform.
pub fn default_isf_path(platform: Platform) -> (r: String)
    ensures
        platform == Platform::Windows ==> r@ == "C:\\ProgramData\\ISF"@,
        platform == Platform::MacOs ==> r@ == "/Library/Graphics/ISF"@,
{
    match platform {
        Platform::Windows => String::from_str("C:\\ProgramData\\ISF"),
        Platform::MacOs => String::from_str("/Library/Graphics/ISF"),
    }
}

/// The GLSL type declared for an ISF input type.
pub open spec fn gl_type_name(kind: IsfInputKind) -> Seq<char> {
    match kind {
        IsfInputKind::Image => "sampler2D"@,
        IsfInputKind::Float => "float"@,
        IsfInputKind::Point2d => "vec2"@,
        IsfInputKind::Color => "vec4"@,
        IsfInputKind::Audio => "sampler2D"@,
        IsfInputKind::AudioFft => "sampler2D"@,
        IsfInputKind::Event => "sampler2D"@,
        IsfInputKind::Bool => "bool"@,
        IsfInputKind::Long => "int"@,
    }
}

fn gl_type_str(kind: IsfInputKind) -> (r: &'static str)
    ensures
        r@ == gl_type_name(kind),
{
    match kind {
        IsfInputKind::Image => "sampler2D",
        IsfInputKind::Float => "float",
        IsfInputKind::Point2d => "vec2",
        IsfInputKind::Color => "vec4",
        IsfInputKind::Audio => "sampler2D",
        IsfInputKind::AudioFft => "sampler2D",
        IsfInputKind::Event => "sampler2D",
        IsfInputKind::Bool => "bool",
        IsfInputKind::Long => "int",
    }
}

/// `uniform <ty> <name>;` and a line break.
pub open spec fn uniform_line(ty: Seq<char>, name: Seq<char>) -> Seq<char> {
    "uniform "@ + ty + " "@ + name + ";\n"@
}

/// One uniform declaration per input, in order.
pub open spec fn input_lines(inputs: Seq<(Seq<char>, IsfInputKind)>) -> Seq<char>
    decreases inputs.len(),
{
    if inputs.len() == 0 {
        Seq::empty()
    } else {
        input_lines(inputs.drop_last()) + uniform_line(
            gl_type_name(inputs.last().1),
            inputs.last().0,
        )
    }
}

/// One `sampler2D` uniform declaration per pass that has a target, in order.
pub open spec fn pass_lines(targets: Seq<Option<Seq<char>>>) -> Seq<char>
    decreases targets.len(),
{
    if targets.len() == 0 {
        Seq::empty()
    } else {
        pass_lines(targets.drop_last()) + match targets.last() {
            Some(t) => uniform_line("sampler2D"@, t),
            None => Seq::empty(),
        }
    }
}

/// The declarations that every ISF shader is compiled with.
pub const STANDARD_PREFIX: &'static str = "
#version 440

precision highp float;
precision highp int;

const int PASSINDEX = 0;
uniform vec2 res;
uniform vec2 RENDERSIZE = res;
#define RENDERSIZE res;
vec2 isf_FragNormCoord = gl_FragCoord.xy/RENDERSIZE;
";

/// The text put before the source of an ISF shader: the standard declarations,
/// a uniform per input, a `sampler2D` uniform per pass target, and an empty line.
pub open spec fn isf_prefix(
    inputs: Seq<(Seq<char>, IsfInputKind)>,
    targets: Seq<Option<Seq<char>>>,
) -> Seq<char> {
    STANDARD_PREFIX@ + input_lines(inputs) + pass_lines(targets) + "\n"@
}

/// The GLSL type the ISF standard declares an input of kind `kind` with: an
/// image, audio, audio FFT or event a `sampler2D`, a float a `float`, a
/// point2D a `vec2`, a color (RGBA) a `vec4`, a bool a `bool`, a long an `int`.
proof fn lemma_gl_type_names(kind: IsfInputKind)
    ensures
        kind == IsfInputKind::Image ==> gl_type_name(kind) == "sampler2D"@,
        kind == IsfInputKind::Audio ==> gl_type_name(kind) == "sampler2D"@,
        kind == IsfInputKind::AudioFft ==> gl_type_name(kind) == "sampler2D"@,
        kind == IsfInputKind::Event ==> gl_type_name(kind) == "sampler2D"@,
        kind == IsfInputKind::Float ==> gl_type_name(kind) == "float"@,
        kind == IsfInputKind::Point2d ==> gl_type_name(kind) == "vec2"@,
        kind == IsfInputKind::Color ==> gl_type_name(kind) == "vec4"@,
        kind == IsfInputKind::Bool ==> gl_type_name(kind) == "bool"@,
        kind == IsfInputKind::Long ==> gl_type_name(kind) == "int"@,
{
}

proof fn lemma_input_lines_concat(a: Seq<(Seq<char>, IsfInputKind)>, b: Seq<(Seq<char>, IsfInputKind)>)
    ensures
        input_lines(a + b) == input_lines(a) + input_lines(b),
    decreases b.len(),
{
    if b.len() == 0 {
        assert(a + b =~= a);
        assert(input_lines(b) =~= Seq::<char>::empty());
        assert(input_lines(a) + input_lines(b) =~= input_lines(a));
    } else {
        lemma_input_lines_concat(a, b.drop_last());
        assert((a + b).drop_last() =~= a + b.drop_last());
        assert((a + b).last() == b.last());
    }
}

/// Law of the ISF prefix: every input of the header is declared as a uniform
/// of the type the ISF standard gives its kind, under its own name: an image,
/// audio, audio FFT or event input as `sampler2D`, a float as `float`, a
/// point2D as `vec2`, a color as `vec4`, a bool as `bool`, a long as `int`.
pub proof fn law_prefix_declares_inputs(
    inputs: Seq<(Seq<char>, IsfInputKind)>,
    targets: Seq<Option<Seq<char>>>,
    i: int,
)
    requires
        0 <= i < inputs.len(),
    ensures
        crate::strings::contains_seq(
            isf_prefix(inputs, targets),
            "uniform "@ + match inputs[i].1 {
                IsfInputKind::Image => "sampler2D"@,
                IsfInputKind::Audio => "sampler2D"@,
                IsfInputKind::AudioFft => "sampler2D"@,
                IsfInputKind::Event => "sampler2D"@,
                IsfInputKind::Float => "float"@,
                IsfInputKind::Point2d => "vec2"@,
                IsfInputKind::Color => "vec4"@,
                IsfInputKind::Bool => "bool"@,
                IsfInputKind::Long => "int"@,
            } + " "@ + inputs[i].0 + ";\n"@,
        ),
{
    let pre = inputs.subrange(0, i);
    let mid = seq![inputs[i]];
    let post = inputs.subrange(i + 1, inputs.len() as int);
    assert(inputs =~= pre + mid + post);
    lemma_input_lines_concat(pre + mid, post);
    lemma_input_lines_concat(pre, mid);
    assert(mid.drop_last() =~= Seq::<(Seq<char>, IsfInputKind)>::empty());
    lemma_gl_type_names(inputs[i].1);
    let line = uniform_line(gl_type_name(inputs[i].1), inputs[i].0);
    assert(mid.last() == inputs[i]);
    assert(input_lines(mid.drop_last()) =~= Seq::<char>::empty());
    assert(input_lines(mid) =~= line);
    let head = STANDARD_PREFIX@ + input_lines(pre);
    let hay = isf_prefix(inputs, targets);
    assert(hay =~= head + line + (input_lines(post) + pass_lines(targets) + "\n"@));
    assert(hay.subrange(head.len() as int, (head.len() + line.len()) as int) =~= line);
    let needle = "uniform "@ + gl_type_name(inputs[i].1) + " "@ + inputs[i].0 + ";\n"@;
    assert(line =~= needle);
}

/// Law of the ISF prefix for a header with one input and no pass target: the
/// standard declarations, the input's uniform of its standard type, and an
/// empty line; a color input `n` gives `uniform vec4 n;`.
pub proof fn law_prefix_of_one_input(name: Seq<char>, kind: IsfInputKind)
    ensures
        isf_prefix(seq![(name, kind)], Seq::empty()) == STANDARD_PREFIX@ + uniform_line(gl_type_name(kind), name)
            + "\n"@,
        kind == IsfInputKind::Color ==> isf_prefix(seq![(name, kind)], Seq::empty()) == STANDARD_PREFIX@ + (
        "uniform "@ + "vec4"@ + " "@ + name + ";\n"@) + "\n"@,
{
    let one = seq![(name, kind)];
    assert(one.drop_last() =~= Seq::<(Seq<char>, IsfInputKind)>::empty());
    assert(one.last() == (name, kind));
    assert(input_lines(one.drop_last()) =~= Seq::<char>::empty());
    assert(input_lines(one) =~= uniform_line(gl_type_name(kind), name));
    assert(pass_lines(Seq::<Option<Seq<char>>>::empty()) =~= Seq::<char>::empty());
    assert(isf_prefix(one, Seq::empty()) =~= STANDARD_PREFIX@ + uniform_line(gl_type_name(kind), name) + "\n"@);
    lemma_gl_type_names(kind);
}

fn append_uniform(s: &mut String, ty: &str, name: &str)
    ensures
        final(s)@ == old(s)@ + uniform_line(ty@, name@),
{
    s.append("uniform ");
    s.append(ty);
    s.append(" ");
    s.append(name);
    s.append(";\n");
    assert(final(s)@ =~= old(s)@ + uniform_line(ty@, name@));
}

/// Generates the declarations put before the source of the ISF shader `def`.
pub fn generate_isf_prefix(def: &isf::Isf) -> (r: String)
    ensures
        r@ == isf_prefix(isf_inputs(*def), isf_pass_targets(*def)),
{
    let mut prefix = String::new();
    prefix.append(STANDARD_PREFIX);
    let ghost inputs = isf_inputs(*def);
    let ghost targets = isf_pass_targets(*def);
    let n = isf_input_count(def);
    let mut i: usize = 0;
    while i < n
        invariant
            n == inputs.len(),
            inputs == isf_inputs(*def),
            0 <= i <= n,
            prefix@ == STANDARD_PREFIX@ + input_lines(inputs.subrange(0, i as int)),
        decreases n - i,
    {
        let (name, kind) = isf_input_at(def, i);
        append_uniform(&mut prefix, gl_type_str(kind), name.as_str());
        assert(inputs.subrange(0, i + 1).drop_last() =~= inputs.subrange(0, i as int));
        i = i + 1;
    }
    assert(inputs.subrange(0, n as int) =~= inputs);
    let m = isf_pass_count(def);
    let mut j: usize = 0;
    while j < m
        invariant
            m == targets.len(),
            targets == isf_pass_targets(*def),
            0 <= j <= m,
            prefix@ == STANDARD_PREFIX@ + input_lines(inputs) + pass_lines(targets.subrange(0, j as int)),
        decreases m - j,
    {
        let target = isf_pass_target(def, j);
        assert(targets.subrange(0, j + 1).drop_last() =~= targets.subrange(0, j as int));
        match target {
            Some(t) => {
                append_uniform(&mut prefix, "sampler2D", t.as_str());
            },
            None => {},
        }
        assert(prefix@ =~= STANDARD_PREFIX@ + input_lines(inputs) + pass_lines(targets.subrange(0, j + 1)));
        j = j + 1;
    }
    assert(targets.subrange(0, m as int) =~= targets);
    prefix.append("\n");
    prefix
}

/// Calls `SystemTime::now`: the current time of the system clock, of which
/// nothing is promised.
#[verifier::external_body]
pub(crate) fn system_time_now() -> (r: std::time::SystemTime) {
    std::time::SystemTime::now()
}

/// Calls `SystemTime::duration_since` with the Unix epoch: the span from the
/// epoch to `t`, `None` for a time before it. The clock's values are opaque
/// here, so nothing is claimed of the span.
#[verifier::external_body]
pub(crate) fn since_unix_epoch(t: &std::time::SystemTime) -> (r: Option<core::time::Duration>) {
    t.duration_since(std::time::UNIX_EPOCH).ok()
}

/// Calls `Duration::as_nanos`: the whole nanoseconds of a span, whose value is
/// opaque here, so nothing is claimed of it.
#[verifier::external_body]
pub(crate) fn duration_as_nanos(d: &core::time::Duration) -> (r: u128) {
    d.as_nanos()
}

/// The system clock now, in nanoseconds since the Unix epoch (0 for a clock
/// set before it). What the clock reads is not known here.
pub fn now_nanos() -> (r: u128) {
    match since_unix_epoch(&system_time_now()) {
        Some(d) => duration_as_nanos(&d),
        None => 0,
    }
}

/// The whole milliseconds from `earlier` to `later` (nanosecond times), `None`
/// where `later` is earlier: what `SystemTime::duration_since` and
/// `Duration::as_millis` give for the two times.
pub open spec fn elapsed_millis(later: u128, earlier: u128) -> Option<u128> {
    if earlier <= later {
        Some(((later - earlier) / 1_000_000) as u128)
    } else {
        None
    }
}

/// A file modified `elapsed` after the last version seen is reloaded when it
/// is more than 10 ms newer (file systems report changes in small steps).
pub open spec fn reload_due(elapsed: Option<u128>) -> bool {
    elapsed matches Some(ms) && 10 < ms
}

/// Watches the modification time of an ISF shader file.
#[derive(Debug)]
pub struct IsfUpdater {
    /// The modification time of the version seen, in nanoseconds since the Unix epoch.
    pub modified: u128,
}

impl IsfUpdater {
    /// Whether a file modified `elapsed_millis` after the last version seen
    /// should be reloaded: when it is more than 10 ms newer (file systems
    /// report changes in small steps).
    pub fn should_reload(elapsed_millis: Option<u128>) -> (b: bool)
        ensures
            b == reload_due(elapsed_millis),
    {
        match elapsed_millis {
            Some(ms) => 10 < ms,
            None => false,
        }
    }

    /// Decides from the file's modification time `new_version` (nanoseconds
    /// since the Unix epoch) whether the shader is reloaded: when it is more
    /// than 10 ms after the version seen. The version seen moves on whenever it
    /// is, even if the reload then fails, so that a retry waits for the next change.
    pub fn reload_if_updated(&mut self, new_version: u128) -> (reload: bool)
        ensures
            reload == reload_due(elapsed_millis(new_version, old(self).modified)),
            reload ==> final(self).modified == new_version,
            !reload ==> final(self).modified == old(self).modified,
    {
        let elapsed = if self.modified <= new_version {
            Some((new_version - self.modified) / 1_000_000)
        } else {
            None
        };
        if Self::should_reload(elapsed) {
            self.modified = new_version;
            true
        } else {
            false
        }
    }
}

} // verus!
