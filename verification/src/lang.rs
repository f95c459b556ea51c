//! Languages and their comment syntax: the rule datatype, the language
//! descriptor, extension extraction, and the fixed registry that maps a file
//! extension to its language.

use vstd::prelude::*;
use vstd::string::StringSliceAdditionalSpecFns;

verus! {

/// One comment form of a language: a marker that comments out every line it
/// starts with, or a pair of markers delimiting a block that may start and
/// end mid-line and span lines.
#[derive(Clone, Copy, Debug)]
pub enum CommentSyntax {
    LineStart(&'static str),
    Range(&'static str, &'static str),
}

/// Model of a comment rule: the markers as byte strings.
#[verifier::ext_equal]
pub enum RuleModel {
    LineStart(Seq<u8>),
    Range(Seq<u8>, Seq<u8>),
}

impl View for CommentSyntax {
    type V = RuleModel;

    open spec fn view(&self) -> RuleModel {
        match *self {
            CommentSyntax::LineStart(m) => RuleModel::LineStart(m.spec_bytes()),
            CommentSyntax::Range(o, c) => RuleModel::Range(o.spec_bytes(), c.spec_bytes()),
        }
    }
}

impl DeepView for CommentSyntax {
    type V = RuleModel;

    open spec fn deep_view(&self) -> RuleModel {
        self.view()
    }
}

/// Model of a language: its display name and its ordered comment rules.
#[verifier::ext_equal]
pub struct LanguageModel {
    pub name: Seq<char>,
    pub rules: Seq<RuleModel>,
}

/// A language as the registry hands it out: a display name and the ordered
/// list of comment rules the classifier applies.
#[derive(Debug)]
pub struct Language {
    pub name: &'static str,
    pub comments: Vec<CommentSyntax>,
}

impl View for Language {
    type V = LanguageModel;

    open spec fn view(&self) -> LanguageModel {
        LanguageModel { name: self.name@, rules: self.comments.deep_view() }
    }
}

impl Language {
    pub fn new(name: &'static str, comments: Vec<CommentSyntax>) -> (l: Language)
        ensures
            l.name == name,
            l.comments == comments,
            l@ == (LanguageModel { name: name@, rules: comments.deep_view() }),
    {
        Language { name, comments }
    }
}

fn rules_1(a: CommentSyntax) -> (v: Vec<CommentSyntax>)
    ensures
        v.deep_view() == seq![a@],
{
    let mut v: Vec<CommentSyntax> = Vec::new();
    v.push(a);
    proof {
        assert(v.deep_view() =~= seq![a@]);
    }
    v
}

fn rules_2(a: CommentSyntax, b: CommentSyntax) -> (v: Vec<CommentSyntax>)
    ensures
        v.deep_view() == seq![a@, b@],
{
    let mut v: Vec<CommentSyntax> = Vec::new();
    v.push(a);
    v.push(b);
    proof {
        assert(v.deep_view() =~= seq![a@, b@]);
    }
    v
}

fn rules_3(a: CommentSyntax, b: CommentSyntax, c: CommentSyntax) -> (v: Vec<CommentSyntax>)
    ensures
        v.deep_view() == seq![a@, b@, c@],
{
    let mut v: Vec<CommentSyntax> = Vec::new();
    v.push(a);
    v.push(b);
    v.push(c);
    proof {
        assert(v.deep_view() =~= seq![a@, b@, c@]);
    }
    v
}

/// C-family comments: `//` line comments and `/* ... */` blocks.
pub open spec fn c_style() -> Seq<RuleModel> {
    seq![
        RuleModel::LineStart("//".spec_bytes()),
        RuleModel::Range("/*".spec_bytes(), "*/".spec_bytes()),
    ]
}

fn c_style_rules() -> (v: Vec<CommentSyntax>)
    ensures
        v.deep_view() == c_style(),
{
    rules_2(CommentSyntax::LineStart("//"), CommentSyntax::Range("/*", "*/"))
}

/// `#` line comments.
pub open spec fn hash_style() -> Seq<RuleModel> {
    seq![RuleModel::LineStart("#".spec_bytes())]
}

fn hash_rules() -> (v: Vec<CommentSyntax>)
    ensures
        v.deep_view() == hash_style(),
{
    rules_1(CommentSyntax::LineStart("#"))
}

/// Matlab comments: `%` line comments and `%{ ... }%` blocks.
pub open spec fn matlab_style() -> Seq<RuleModel> {
    seq![
        RuleModel::LineStart("%".spec_bytes()),
        RuleModel::Range("%{".spec_bytes(), "}%".spec_bytes()),
    ]
}

fn matlab_rules() -> (v: Vec<CommentSyntax>)
    ensures
        v.deep_view() == matlab_style(),
{
    rules_2(CommentSyntax::LineStart("%"), CommentSyntax::Range("%{", "}%"))
}

/// Scheme comments: `;` line comments and `#| ... |#` blocks.
pub open spec fn scheme_style() -> Seq<RuleModel> {
    seq![
        RuleModel::LineStart(";".spec_bytes()),
        RuleModel::Range("#|".spec_bytes(), "|#".spec_bytes()),
    ]
}

fn scheme_rules() -> (v: Vec<CommentSyntax>)
    ensures
        v.deep_view() == scheme_style(),
{
    rules_2(CommentSyntax::LineStart(";"), CommentSyntax::Range("#|", "|#"))
}

/// Doc-block comments only: `/** ... */`.
pub open spec fn doc_block_style() -> Seq<RuleModel> {
    seq![RuleModel::Range("/**".spec_bytes(), "*/".spec_bytes())]
}

/// PHP comments: `//` and `#` line comments and `/* ... */` blocks.
pub open spec fn php_style() -> Seq<RuleModel> {
    seq![
        RuleModel::LineStart("//".spec_bytes()),
        RuleModel::LineStart("#".spec_bytes()),
        RuleModel::Range("/*".spec_bytes(), "*/".spec_bytes()),
    ]
}

/// Haskell comments: `--` line comments and `{- ... -}` blocks.
pub open spec fn haskell_style() -> Seq<RuleModel> {
    seq![
        RuleModel::LineStart("--".spec_bytes()),
        RuleModel::Range("{-".spec_bytes(), "-}".spec_bytes()),
    ]
}

/// Ruby comments: `#` line comments and `=begin ... =end` blocks.
pub open spec fn ruby_style() -> Seq<RuleModel> {
    seq![
        RuleModel::LineStart("#".spec_bytes()),
        RuleModel::Range("=begin".spec_bytes(), "=end".spec_bytes()),
    ]
}

/// `;` line comments.
pub open spec fn semi_style() -> Seq<RuleModel> {
    seq![RuleModel::LineStart(";".spec_bytes())]
}

/// `##` line comments.
pub open spec fn double_hash_style() -> Seq<RuleModel> {
    seq![RuleModel::LineStart("##".spec_bytes())]
}

/// HTML comments: `<!-- ... -->` blocks.
pub open spec fn html_style() -> Seq<RuleModel> {
    seq![RuleModel::Range("<!--".spec_bytes(), "-->".spec_bytes())]
}

/// CSS comments: `/* ... */` blocks.
pub open spec fn css_style() -> Seq<RuleModel> {
    seq![RuleModel::Range("/*".spec_bytes(), "*/".spec_bytes())]
}

/// `//` line comments only.
pub open spec fn slashes_style() -> Seq<RuleModel> {
    seq![RuleModel::LineStart("//".spec_bytes())]
}

/// Batch comments: `Rem` and `::` line comments.
pub open spec fn batch_style() -> Seq<RuleModel> {
    seq![RuleModel::LineStart("Rem".spec_bytes()), RuleModel::LineStart("::".spec_bytes())]
}

pub open spec fn lang_of(name: Seq<char>, rules: Seq<RuleModel>) -> LanguageModel {
    LanguageModel { name: name, rules: rules }
}

/// The fixed table behind `lookup`: which language, if any, each file
/// extension denotes, and its comment rules.
pub open spec fn registry_model(ext: Seq<u8>) -> Option<LanguageModel> {
    if ext == "rs".spec_bytes() {
        Some(lang_of("Rust"@, c_style()))
    } else if ext == "go".spec_bytes() {
        Some(lang_of("Go"@, c_style()))
    } else if ext == "h".spec_bytes() {
        Some(lang_of("C"@, c_style()))
    } else if ext == "c".spec_bytes() {
        Some(lang_of("C"@, c_style()))
    } else if ext == "hpp".spec_bytes() {
        Some(lang_of("C++"@, c_style()))
    } else if ext == "cpp".spec_bytes() {
        Some(lang_of("C++"@, c_style()))
    } else if ext == "cs".spec_bytes() {
        Some(lang_of("C#"@, c_style()))
    } else if ext == "java".spec_bytes() {
        Some(lang_of("Java"@, c_style()))
    } else if ext == "js".spec_bytes() {
        Some(lang_of("javascript"@, c_style()))
    } else if ext == "carbon".spec_bytes() {
        Some(lang_of("Carbon"@, c_style()))
    } else if ext == "swift".spec_bytes() {
        Some(lang_of("Swift"@, c_style()))
    } else if ext == "dart".spec_bytes() {
        Some(lang_of("Dart"@, c_style()))
    } else if ext == "sc".spec_bytes() {
        Some(lang_of("Scala"@, c_style()))
    } else if ext == "kt".spec_bytes() {
        Some(lang_of("Kotlin"@, c_style()))
    } else if ext == "hla".spec_bytes() {
        Some(lang_of("HLA"@, c_style()))
    } else if ext == "lua".spec_bytes() {
        Some(lang_of("Lua"@, c_style()))
    } else if ext == "rhai".spec_bytes() {
        Some(lang_of("Rhai"@, c_style()))
    } else if ext == "ts".spec_bytes() {
        Some(lang_of("Scala"@, doc_block_style()))
    } else if ext == "wgsl".spec_bytes() {
        Some(lang_of("wglsl"@, c_style()))
    } else if ext == "glsl".spec_bytes() {
        Some(lang_of("glsl"@, c_style()))
    } else if ext == "hlsl".spec_bytes() {
        Some(lang_of("hlsl"@, c_style()))
    } else if ext == "php".spec_bytes() {
        Some(lang_of("Swift"@, php_style()))
    } else if ext == "hs".spec_bytes() {
        Some(lang_of("Haskell"@, haskell_style()))
    } else if ext == "rb".spec_bytes() {
        Some(lang_of("Ruby"@, ruby_style()))
    } else if ext == "asm".spec_bytes() {
        Some(lang_of("Assembly"@, semi_style()))
    } else if ext == "tao".spec_bytes() {
        Some(lang_of("Tao"@, double_hash_style()))
    } else if ext == "html".spec_bytes() {
        Some(lang_of("html"@, html_style()))
    } else if ext == "css".spec_bytes() {
        Some(lang_of("css"@, css_style()))
    } else if ext == "zig".spec_bytes() {
        Some(lang_of("Zig"@, slashes_style()))
    } else if ext == "py".spec_bytes() {
        Some(lang_of("Python"@, hash_style()))
    } else if ext == "r".spec_bytes() {
        Some(lang_of("R"@, hash_style()))
    } else if ext == "pl".spec_bytes() {
        Some(lang_of("Perl"@, hash_style()))
    } else if ext == "emojic".spec_bytes() {
        Some(lang_of("emojicode"@, hash_style()))
    } else if ext == "toml".spec_bytes() {
        Some(lang_of("TOML"@, hash_style()))
    } else if ext == "gitignore".spec_bytes() {
        Some(lang_of("git ignore"@, hash_style()))
    } else if ext == "makefile".spec_bytes() {
        Some(lang_of("make file"@, hash_style()))
    } else if ext == "bash".spec_bytes() {
        Some(lang_of("bash script"@, hash_style()))
    } else if ext == "bat".spec_bytes() {
        Some(lang_of("batch script"@, batch_style()))
    } else if ext == "m".spec_bytes() {
        Some(lang_of("Matlab"@, matlab_style()))
    } else if ext == "mat".spec_bytes() {
        Some(lang_of("Matlab"@, matlab_style()))
    } else if ext == "ss".spec_bytes() {
        Some(lang_of("Scheme"@, scheme_style()))
    } else if ext == "sls".spec_bytes() {
        Some(lang_of("Scheme"@, scheme_style()))
    } else if ext == "scm".spec_bytes() {
        Some(lang_of("Scheme"@, scheme_style()))
    } else {
        None
    }
}

/// Looks the extension up in the fixed registry. `None` means the extension
/// denotes no known language and its lines are counted raw.
pub fn lookup(ext: &[u8]) -> (r: Option<Language>)
    ensures
        (r is Some) == (registry_model(ext@) is Some),
        r matches Some(l) ==> Some(l@) == registry_model(ext@),
{
    if crate::bytes::bytes_eq(ext, "rs".as_bytes()) {
        Some(Language::new("Rust", c_style_rules()))
    } else if crate::bytes::bytes_eq(ext, "go".as_bytes()) {
        Some(Language::new("Go", c_style_rules()))
    } else if crate::bytes::bytes_eq(ext, "h".as_bytes()) {
        Some(Language::new("C", c_style_rules()))
    } else if crate::bytes::bytes_eq(ext, "c".as_bytes()) {
        Some(Language::new("C", c_style_rules()))
    } else if crate::bytes::bytes_eq(ext, "hpp".as_bytes()) {
        Some(Language::new("C++", c_style_rules()))
    } else if crate::bytes::bytes_eq(ext, "cpp".as_bytes()) {
        Some(Language::new("C++", c_style_rules()))
    } else if crate::bytes::bytes_eq(ext, "cs".as_bytes()) {
        Some(Language::new("C#", c_style_rules()))
    } else if crate::bytes::bytes_eq(ext, "java".as_bytes()) {
        Some(Language::new("Java", c_style_rules()))
    } else if crate::bytes::bytes_eq(ext, "js".as_bytes()) {
        Some(Language::new("javascript", c_style_rules()))
    } else if crate::bytes::bytes_eq(ext, "carbon".as_bytes()) {
        Some(Language::new("Carbon", c_style_rules()))
    } else if crate::bytes::bytes_eq(ext, "swift".as_bytes()) {
        Some(Language::new("Swift", c_style_rules()))
    } else if crate::bytes::bytes_eq(ext, "dart".as_bytes()) {
        Some(Language::new("Dart", c_style_rules()))
    } else if crate::bytes::bytes_eq(ext, "sc".as_bytes()) {
        Some(Language::new("Scala", c_style_rules()))
    } else if crate::bytes::bytes_eq(ext, "kt".as_bytes()) {
        Some(Language::new("Kotlin", c_style_rules()))
    } else if crate::bytes::bytes_eq(ext, "hla".as_bytes()) {
        Some(Language::new("HLA", c_style_rules()))
    } else if crate::bytes::bytes_eq(ext, "lua".as_bytes()) {
        Some(Language::new("Lua", c_style_rules()))
    } else if crate::bytes::bytes_eq(ext, "rhai".as_bytes()) {
        Some(Language::new("Rhai", c_style_rules()))
    } else if crate::bytes::bytes_eq(ext, "ts".as_bytes()) {
        Some(Language::new("Scala", rules_1(CommentSyntax::Range("/**", "*/"))))
    } else if crate::bytes::bytes_eq(ext, "wgsl".as_bytes()) {
        Some(Language::new("wglsl", c_style_rules()))
    } else if crate::bytes::bytes_eq(ext, "glsl".as_bytes()) {
        Some(Language::new("glsl", c_style_rules()))
    } else if crate::bytes::bytes_eq(ext, "hlsl".as_bytes()) {
        Some(Language::new("hlsl", c_style_rules()))
    } else if crate::bytes::bytes_eq(ext, "php".as_bytes()) {
        Some(
            Language::new(
                "Swift",
                rules_3(
                    CommentSyntax::LineStart("//"),
                    CommentSyntax::LineStart("#"),
                    CommentSyntax::Range("/*", "*/"),
                ),
            ),
        )
    } else if crate::bytes::bytes_eq(ext, "hs".as_bytes()) {
        Some(
            Language::new(
                "Haskell",
                rules_2(CommentSyntax::LineStart("--"), CommentSyntax::Range("{-", "-}")),
            ),
        )
    } else if crate::bytes::bytes_eq(ext, "rb".as_bytes()) {
        Some(
            Language::new(
                "Ruby",
                rules_2(CommentSyntax::LineStart("#"), CommentSyntax::Range("=begin", "=end")),
            ),
        )
    } else if crate::bytes::bytes_eq(ext, "asm".as_bytes()) {
        Some(Language::new("Assembly", rules_1(CommentSyntax::LineStart(";"))))
    } else if crate::bytes::bytes_eq(ext, "tao".as_bytes()) {
        Some(Language::new("Tao", rules_1(CommentSyntax::LineStart("##"))))
    } else if crate::bytes::bytes_eq(ext, "html".as_bytes()) {
        Some(Language::new("html", rules_1(CommentSyntax::Range("<!--", "-->"))))
    } else if crate::bytes::bytes_eq(ext, "css".as_bytes()) {
        Some(Language::new("css", rules_1(CommentSyntax::Range("/*", "*/"))))
    } else if crate::bytes::bytes_eq(ext, "zig".as_bytes()) {
        Some(Language::new("Zig", rules_1(CommentSyntax::LineStart("//"))))
    } else if crate::bytes::bytes_eq(ext, "py".as_bytes()) {
        Some(Language::new("Python", hash_rules()))
    } else if crate::bytes::bytes_eq(ext, "r".as_bytes()) {
        Some(Language::new("R", hash_rules()))
    } else if crate::bytes::bytes_eq(ext, "pl".as_bytes()) {
        Some(Language::new("Perl", hash_rules()))
    } else if crate::bytes::bytes_eq(ext, "emojic".as_bytes()) {
        Some(Language::new("emojicode", hash_rules()))
    } else if crate::bytes::bytes_eq(ext, "toml".as_bytes()) {
        Some(Language::new("TOML", hash_rules()))
    } else if crate::bytes::bytes_eq(ext, "gitignore".as_bytes()) {
        Some(Language::new("git ignore", hash_rules()))
    } else if crate::bytes::bytes_eq(ext, "makefile".as_bytes()) {
        Some(Language::new("make file", hash_rules()))
    } else if crate::bytes::bytes_eq(ext, "bash".as_bytes()) {
        Some(Language::new("bash script", hash_rules()))
    } else if crate::bytes::bytes_eq(ext, "bat".as_bytes()) {
        Some(
            Language::new(
                "batch script",
                rules_2(CommentSyntax::LineStart("Rem"), CommentSyntax::LineStart("::")),
            ),
        )
    } else if crate::bytes::bytes_eq(ext, "m".as_bytes()) {
        Some(Language::new("Matlab", matlab_rules()))
    } else if crate::bytes::bytes_eq(ext, "mat".as_bytes()) {
        Some(Language::new("Matlab", matlab_rules()))
    } else if crate::bytes::bytes_eq(ext, "ss".as_bytes()) {
        Some(Language::new("Scheme", scheme_rules()))
    } else if crate::bytes::bytes_eq(ext, "sls".as_bytes()) {
        Some(Language::new("Scheme", scheme_rules()))
    } else if crate::bytes::bytes_eq(ext, "scm".as_bytes()) {
        Some(Language::new("Scheme", scheme_rules()))
    } else {
        None
    }
}

/// The position of the last `.` in `name`, or -1 when there is none.
pub open spec fn last_dot(s: Seq<u8>) -> int
    decreases s.len(),
{
    if s.len() == 0 {
        -1
    } else if s.last() == 46u8 {
        s.len() - 1
    } else {
        last_dot(s.drop_last())
    }
}

/// The extension of a file name: what follows the final `.`, or the whole
/// name when it holds no dot.
pub open spec fn extension_model(name: Seq<u8>) -> Seq<u8> {
    if last_dot(name) >= 0 {
        name.subrange(last_dot(name) + 1, name.len() as int)
    } else {
        name
    }
}

proof fn lemma_last_dot_at(s: Seq<u8>, j: int)
    requires
        0 <= j < s.len(),
        s[j] == 46u8,
        forall|t: int| j < t < s.len() ==> s[t] != 46u8,
    ensures
        last_dot(s) == j,
    decreases s.len(),
{
    if j < s.len() - 1 {
        lemma_last_dot_at(s.drop_last(), j);
    }
}

proof fn lemma_last_dot_none(s: Seq<u8>)
    requires
        forall|t: int| 0 <= t < s.len() ==> s[t] != 46u8,
    ensures
        last_dot(s) == -1,
    decreases s.len(),
{
    if s.len() > 0 {
        lemma_last_dot_none(s.drop_last());
    }
}

/// The extension of the file name `name`, used as the key into the registry.
pub fn extension_of(name: &[u8]) -> (r: Vec<u8>)
    ensures
        r@ == extension_model(name@),
{
    let n = name.len();
    let mut i: usize = n;
    while i > 0
        invariant
            n == name@.len(),
            i <= n,
            forall|t: int| i <= t < n ==> name@[t] != 46u8,
        decreases i,
    {
        if name[i - 1] == 46 {
            proof {
                lemma_last_dot_at(name@, i - 1);
            }
            return vstd::slice::slice_to_vec(vstd::slice::slice_subrange(name, i, n));
        }
        i = i - 1;
    }
    proof {
        lemma_last_dot_none(name@);
    }
    vstd::slice::slice_to_vec(name)
}

} // verus!

