use vstd::prelude::*;

use crate::chars::{char_vec, lit, occurs_at, string_of, trimmed, words, word_count, starts_with};
use crate::config::RedFlaggerConfig;
use crate::error::Error;
use crate::ports::{LlmClient, RedFlagger};
use crate::text::{
    decimal_chars, extract_xml_files, infer_language, is_lit, is_unbalanced, language_of,
    pair_views, unbalanced_from, xml_blocks_from,
};

verus! {

/// A rejection of a sample: which validator and why.
#[derive(Debug, Clone)]
pub struct RedFlagMatch {
    pub flagger: String,
    pub reason: String,
}

// ---------------------------------------------------------------- outside parsers

/// Whether the Python grammar's parse of `code` holds an error; `None` when parsing fails.
pub uninterp spec fn python_tree_error(code: Seq<char>) -> Option<bool>;

/// Whether the Java grammar's parse of `code` holds an error; `None` when parsing fails.
pub uninterp spec fn java_tree_error(code: Seq<char>) -> Option<bool>;

/// Whether the Rust grammar's parse of `code` holds an error; `None` when parsing fails.
pub uninterp spec fn rust_tree_error(code: Seq<char>) -> Option<bool>;

/// Relies on tree_sitter's `Parser` with tree_sitter_python's grammar: `Node::has_error` of the
/// root of the parse, or `None` when the grammar cannot be set or `Parser::parse` gives no tree.
#[verifier::external_body]
fn python_parse_error(code: &str) -> (r: Option<bool>)
    ensures
        r == python_tree_error(code@),
{
    let mut parser = tree_sitter::Parser::new();
    parser.set_language(&tree_sitter_python::LANGUAGE.into()).ok()?;
    parser.parse(code, None).map(|tree| tree.root_node().has_error())
}

/// Relies on tree_sitter's `Parser` with tree_sitter_java's grammar: `Node::has_error` of the
/// root of the parse, or `None` when the grammar cannot be set or `Parser::parse` gives no tree.
#[verifier::external_body]
fn java_parse_error(code: &str) -> (r: Option<bool>)
    ensures
        r == java_tree_error(code@),
{
    let mut parser = tree_sitter::Parser::new();
    parser.set_language(&tree_sitter_java::LANGUAGE.into()).ok()?;
    parser.parse(code, None).map(|tree| tree.root_node().has_error())
}

/// Relies on tree_sitter's `Parser` with tree_sitter_rust's grammar: `Node::has_error` of the
/// root of the parse, or `None` when the grammar cannot be set or `Parser::parse` gives no tree.
#[verifier::external_body]
fn rust_parse_error(code: &str) -> (r: Option<bool>)
    ensures
        r == rust_tree_error(code@),
{
    let mut parser = tree_sitter::Parser::new();
    parser.set_language(&tree_sitter_rust::LANGUAGE.into()).ok()?;
    parser.parse(code, None).map(|tree| tree.root_node().has_error())
}

/// Lower-case form of a string.
pub uninterp spec fn lowercase_of(s: Seq<char>) -> Seq<char>;

/// Relies on `str::to_lowercase`: the result depends on the characters alone.
#[verifier::external_body]
fn lowercase(s: &str) -> (r: String)
    ensures
        r@ == lowercase_of(s@),
{
    s.to_lowercase()
}

// ---------------------------------------------------------------- syntax

/// Whether `code` is faulty in `language`: through the grammar for Python, Java and Rust,
/// else by its brackets. `None` when a grammar fails to run.
pub open spec fn syntax_fault(code: Seq<char>, language: Seq<char>) -> Option<bool> {
    if language == "python"@ {
        python_tree_error(code)
    } else if language == "java"@ {
        java_tree_error(code)
    } else if language == "rust"@ {
        rust_tree_error(code)
    } else {
        Some(unbalanced_from(code, seq![]))
    }
}

pub fn same_text(a: &str, b: &str) -> (r: bool)
    ensures
        r == (a@ == b@),
{
    is_lit(&char_vec(a), &char_vec(b))
}

/// Checks `content` as `language`: `Ok(Some(reason))` on a fault, `Ok(None)` when clean,
/// `Err` when the grammar failed to run.
pub fn check_syntax(content: &str, language: &str) -> (r: Result<Option<String>, Error>)
    ensures
        r is Err <==> syntax_fault(content@, language@) is None,
        r matches Ok(m) ==> (m is Some <==> syntax_fault(content@, language@) == Some(true)),
{
    proof {
        reveal_strlit("python");
        reveal_strlit("java");
        reveal_strlit("rust");
    }
    let verdict = if same_text(language, "python") {
        python_parse_error(content)
    } else if same_text(language, "java") {
        java_parse_error(content)
    } else if same_text(language, "rust") {
        rust_parse_error(content)
    } else {
        if is_unbalanced(content) {
            return Ok(
                Some(
                    String::from_str(language).concat(
                        " delimiters appear unbalanced (simple check)",
                    ),
                ),
            );
        }
        return Ok(None);
    };
    match verdict {
        None => Err(Error::System(String::from_str("Failed to parse code"))),
        Some(true) => Ok(Some(String::from_str("Syntax error detected"))),
        Some(false) => Ok(None),
    }
}

/// The language a file block is checked as: its extension's, else the configured one.
pub open spec fn block_language(path: Seq<char>, language: Seq<char>) -> Seq<char> {
    match language_of(path) {
        Some(l) => l,
        None => language,
    }
}

/// The verdict on file blocks: the first faulty block decides; a failing grammar stops.
pub open spec fn blocks_verdict(bs: Seq<(Seq<char>, Seq<char>)>, language: Seq<char>) -> Option<bool>
    decreases bs.len(),
{
    if bs.len() == 0 {
        Some(false)
    } else {
        match syntax_fault(bs[0].1, block_language(bs[0].0, language)) {
            None => None,
            Some(true) => Some(true),
            Some(false) => blocks_verdict(bs.drop_first(), language),
        }
    }
}

/// The syntax validator's verdict on a sample: on its file blocks when asked to look for them
/// and there are some, else on the whole sample.
pub open spec fn syntax_verdict(c: Seq<char>, language: Seq<char>, extract_xml: bool) -> Option<bool> {
    if extract_xml && xml_blocks_from(c, 0).len() > 0 {
        blocks_verdict(xml_blocks_from(c, 0), language)
    } else {
        syntax_fault(c, language)
    }
}

/// The syntax validator: `Ok(Some(reason))` rejects the sample.
pub fn syntax_check(candidate: &str, language: &str, extract_xml: bool) -> (r: Result<
    Option<String>,
    Error,
>)
    ensures
        r is Err <==> syntax_verdict(candidate@, language@, extract_xml) is None,
        r matches Ok(m) ==> (m is Some <==> syntax_verdict(candidate@, language@, extract_xml)
            == Some(true)),
{
    if extract_xml {
        let files = extract_xml_files(candidate);
        if files.len() > 0 {
            let ghost bs = pair_views(files@);
            let mut i: usize = 0;
            assert(bs.skip(0) =~= bs);
            while i < files.len()
                invariant
                    bs == pair_views(files@),
                    bs =~= xml_blocks_from(candidate@, 0),
                    extract_xml,
                    bs.len() == files@.len(),
                    files@.len() > 0,
                    i <= files.len(),
                    blocks_verdict(bs.skip(i as int), language@) == blocks_verdict(bs, language@),
                decreases files.len() - i,
            {
                let path = &files[i].0;
                let content = &files[i].1;
                proof {
                    assert(bs.skip(i as int)[0] == (path@, content@));
                    assert(bs.skip(i as int).drop_first() =~= bs.skip(i + 1));
                }
                let lang = match infer_language(path.as_str()) {
                    Some(l) => l,
                    None => String::from_str(language),
                };
                proof {
                    assert(block_language(path@, language@) == lang@);
                    assert(syntax_verdict(candidate@, language@, extract_xml) == blocks_verdict(
                        bs,
                        language@,
                    ));
                    assert(bs.skip(i as int).len() > 0);
                }
                match check_syntax(content.as_str(), lang.as_str()) {
                    Err(e) => {
                        return Err(e);
                    },
                    Ok(Some(err)) => {
                        return Ok(
                            Some(
                                String::from_str("Syntax error in ").concat(path.as_str()).concat(
                                    ": ",
                                ).concat(err.as_str()),
                            ),
                        );
                    },
                    Ok(None) => {},
                }
                i = i + 1;
            }
            assert(bs.skip(i as int).len() == 0);
            return Ok(None);
        }
    }
    check_syntax(candidate, language)
}

// ---------------------------------------------------------------- length

/// The length validator's reason for rejecting `candidate`, when it has more than
/// `max_tokens` whitespace-separated tokens.
pub fn length_check(candidate: &str, max_tokens: usize) -> (r: Option<String>)
    ensures
        r is Some <==> words(candidate@).len() > max_tokens,
{
    let tokens = word_count(candidate);
    if tokens > max_tokens {
        let used = string_of(&decimal_chars(tokens));
        let limit = string_of(&decimal_chars(max_tokens));
        Some(
            String::from_str("response used ").concat(used.as_str()).concat(
                " tokens exceeding limit ",
            ).concat(limit.as_str()),
        )
    } else {
        None
    }
}

/// Rejects samples with more than `max_tokens` whitespace-separated tokens.
pub struct LengthRedFlagger {
    pub max_tokens: usize,
}

impl RedFlagger for LengthRedFlagger {
    fn name(&self) -> (r: String) {
        String::from_str("length")
    }

    fn check(&self, content: &String) -> (r: Result<(), Error>) {
        match length_check(content.as_str(), self.max_tokens) {
            Some(reason) => Err(Error::RedFlag { flagger: String::from_str("length"), reason }),
            None => Ok(()),
        }
    }
}

// ---------------------------------------------------------------- critique

/// `s` with every occurrence of `p` from `i` on, leftmost first and not overlapping,
/// replaced by `t`.
pub open spec fn replaced_from(s: Seq<char>, p: Seq<char>, t: Seq<char>, i: int) -> Seq<char>
    decreases s.len() - i,
{
    if i < 0 || i >= s.len() {
        seq![]
    } else if p.len() > 0 && i + p.len() <= s.len() && s.subrange(i, i + p.len()) == p {
        t + replaced_from(s, p, t, i + p.len())
    } else {
        seq![s[i]] + replaced_from(s, p, t, i + 1)
    }
}

/// Replaces each occurrence of `p` in `s` by `t`.
pub fn replace_text(s: &str, p: &str, t: &str) -> (r: String)
    requires
        p@.len() > 0,
    ensures
        r@ == replaced_from(s@, p@, t@, 0),
{
    let v = char_vec(s);
    let pv = char_vec(p);
    let tv = char_vec(t);
    let ghost sv = v@;
    let mut out: Vec<char> = Vec::new();
    let mut i: usize = 0;
    while i < v.len()
        invariant
            sv == v@,
            sv == s@,
            pv@ == p@,
            tv@ == t@,
            pv@.len() > 0,
            i <= sv.len(),
            out@ + replaced_from(sv, pv@, tv@, i as int) =~= replaced_from(sv, pv@, tv@, 0),
        decreases sv.len() - i,
    {
        if occurs_at(&v, i, &pv) {
            let ghost before = out@;
            let mut j: usize = 0;
            while j < tv.len()
                invariant
                    j <= tv.len(),
                    out@ == before + tv@.take(j as int),
                decreases tv.len() - j,
            {
                out.push(tv[j]);
                assert(tv@.take(j + 1) =~= tv@.take(j as int).push(tv@[j as int]));
                j = j + 1;
            }
            assert(tv@.take(tv@.len() as int) =~= tv@);
            i = i + pv.len();
        } else {
            out.push(v[i]);
            i = i + 1;
        }
    }
    assert(replaced_from(sv, pv@, tv@, i as int) =~= Seq::<char>::empty());
    string_of(&out)
}

/// Whether a critique's response condemns the sample: trimmed and lower-cased, it starts
/// with "yes".
pub open spec fn critique_condemns(response: Seq<char>) -> bool {
    starts_with(lowercase_of(trimmed(response)), "yes"@)
}

pub fn critique_flags(response: &str) -> (r: bool)
    ensures
        r == critique_condemns(response@),
{
    let t = crate::chars::trim_string(response);
    let low = lowercase(t.as_str());
    let v = char_vec(low.as_str());
    let yes = lit("yes");
    let r = occurs_at(&v, 0, &yes);
    r
}

// ---------------------------------------------------------------- pipeline

/// The validators that samples of one agent go through, in order.
#[derive(Debug)]
pub struct RedFlagPipeline {
    pub flaggers: Vec<RedFlaggerConfig>,
}

impl RedFlagPipeline {
    pub fn from_configs(configs: &Vec<RedFlaggerConfig>) -> (r: Self)
        ensures
            r.flaggers@ == configs@,
    {
        RedFlagPipeline { flaggers: crate::config::copy_flaggers(configs) }
    }

    pub fn is_empty(&self) -> (r: bool)
        ensures
            r == (self.flaggers@.len() == 0),
    {
        self.flaggers.len() == 0
    }

    /// No length validator of the pipeline rejects `s`.
    pub open spec fn length_ok(&self, s: Seq<char>) -> bool {
        forall|i: int|
            0 <= i < self.flaggers@.len() ==> (#[trigger] self.flaggers@[i] matches RedFlaggerConfig::Length {
                max_tokens,
            } ==> words(s).len() <= max_tokens)
    }

    /// The names of the validators that reject `c`, in order, for a pipeline without critiques.
    pub open spec fn static_flags(flaggers: Seq<RedFlaggerConfig>, c: Seq<char>) -> Seq<Seq<char>>
        decreases flaggers.len(),
    {
        if flaggers.len() == 0 {
            seq![]
        } else {
            Self::static_flags(flaggers.drop_last(), c) + match flaggers.last() {
                RedFlaggerConfig::Length { max_tokens } => if words(c).len() > max_tokens {
                    seq!["length"@]
                } else {
                    seq![]
                },
                RedFlaggerConfig::Syntax { language, extract_xml } => if syntax_verdict(
                    c,
                    language@,
                    extract_xml,
                ) == Some(true) {
                    seq!["syntax"@]
                } else {
                    seq![]
                },
                RedFlaggerConfig::LlmCritique { .. } => seq![],
            }
        }
    }

    pub open spec fn has_critique(flaggers: Seq<RedFlaggerConfig>) -> bool {
        exists|i: int| 0 <= i < flaggers.len() && #[trigger] flaggers[i] is LlmCritique
    }

    /// No validator that can be judged without a model rejects `s`: the length validators, and
    /// also the syntax validators when the pipeline has no critique.
    pub open spec fn passes(&self, s: Seq<char>) -> bool {
        &&& self.length_ok(s)
        &&& !Self::has_critique(self.flaggers@) ==> Self::static_flags(self.flaggers@, s).len() == 0
    }

    /// Runs every validator on `candidate` and gathers their rejections. A validator that fails
    /// to run rejects nothing.
    pub fn evaluate<L: LlmClient>(&self, candidate: &String, llm: &L) -> (r: Vec<RedFlagMatch>)
        ensures
            r@.len() == 0 ==> self.length_ok(candidate@),
            r@.len() == 0 ==> self.passes(candidate@),
            !Self::has_critique(self.flaggers@) ==> r@.map_values(|m: RedFlagMatch| m.flagger@)
                == Self::static_flags(self.flaggers@, candidate@),
    {
        let mut out: Vec<RedFlagMatch> = Vec::new();
        let mut i: usize = 0;
        proof {
            reveal_strlit("length");
            reveal_strlit("syntax");
            assert(self.flaggers@.take(0) =~= Seq::<RedFlaggerConfig>::empty());
        }
        while i < self.flaggers.len()
            invariant
                i <= self.flaggers.len(),
                !Self::has_critique(self.flaggers@) ==> out@.map_values(|m: RedFlagMatch| m.flagger@)
                    =~= Self::static_flags(self.flaggers@.take(i as int), candidate@),
                out@.len() == 0 ==> forall|j: int|
                    0 <= j < i ==> (#[trigger] self.flaggers@[j] matches RedFlaggerConfig::Length {
                        max_tokens,
                    } ==> words(candidate@).len() <= max_tokens),
            decreases self.flaggers.len() - i,
        {
            proof {
                assert(self.flaggers@.take(i + 1).drop_last() =~= self.flaggers@.take(i as int));
                assert(self.flaggers@.take(i + 1).last() == self.flaggers@[i as int]);
            }
            match &self.flaggers[i] {
                RedFlaggerConfig::Length { max_tokens } => {
                    if let Some(reason) = length_check(candidate.as_str(), *max_tokens) {
                        out.push(RedFlagMatch { flagger: String::from_str("length"), reason });
                    }
                },
                RedFlaggerConfig::Syntax { language, extract_xml } => {
                    if let Ok(Some(reason)) = syntax_check(
                        candidate.as_str(),
                        language.as_str(),
                        *extract_xml,
                    ) {
                        out.push(RedFlagMatch { flagger: String::from_str("syntax"), reason });
                    }
                },
                RedFlaggerConfig::LlmCritique { model, prompt_template } => {
                    proof {
                        reveal_strlit("{{candidate}}");
                    }
                    let prompt = replace_text(
                        prompt_template.as_str(),
                        "{{candidate}}",
                        candidate.as_str(),
                    );
                    if let Ok(response) = llm.chat_completion(model, &prompt) {
                        if critique_flags(response.as_str()) {
                            out.push(
                                RedFlagMatch {
                                    flagger: String::from_str("llm_critique"),
                                    reason: String::from_str(
                                        "LLM critique flagged content: ",
                                    ).concat(response.as_str()),
                                },
                            );
                        }
                    }
                },
            }
            i = i + 1;
        }
        assert(self.flaggers@.take(self.flaggers@.len() as int) =~= self.flaggers@);
        out
    }
}

} // verus!
