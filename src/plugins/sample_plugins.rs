//! Two sample plugins: one upper-cases the prompt, one marks the start of
//! each fenced code block in a reply.

use crate::parser::strings_view;
use crate::plugins::{MetadataView, Plugin, PluginCapability, PluginError, PluginMetadata};
use vstd::prelude::*;

verus! {

/// The state of a sample plugin.
pub struct SamplePluginView {
    pub metadata: MetadataView,
    pub enabled: bool,
}

/// The error of a plugin that was used before it was initialised.
pub open spec fn not_initialized(e: PluginError) -> bool {
    e matches PluginError::ProcessingError(m) && m@ == "Plugin not initialized"@
}

fn not_initialized_error() -> (e: PluginError)
    ensures
        not_initialized(e),
{
    PluginError::ProcessingError("Plugin not initialized".to_owned())
}

/// What `str::to_uppercase` returns: the upper-case form of each character.
pub uninterp spec fn uppercase_of(s: Seq<char>) -> Seq<char>;

/// Relies on `str::to_uppercase`: its result depends on the characters alone.
#[verifier::external_body]
fn to_uppercase(s: &str) -> (r: String)
    ensures
        r@ == uppercase_of(s@),
{
    s.to_uppercase()
}

/// A line without the carriage return that ends it, if any.
pub open spec fn without_carriage_return(line: Seq<char>) -> Seq<char> {
    if line.len() > 0 && line.last() == '\r' {
        line.drop_last()
    } else {
        line
    }
}

/// The lines that `s` completes with a newline, and the unfinished text
/// after the last newline.
pub open spec fn line_split(s: Seq<char>) -> (Seq<Seq<char>>, Seq<char>)
    decreases s.len(),
{
    if s.len() == 0 {
        (Seq::empty(), Seq::empty())
    } else {
        let (done, current) = line_split(s.drop_last());
        if s.last() == '\n' {
            (done.push(without_carriage_return(current)), Seq::empty())
        } else {
            (done, current.push(s.last()))
        }
    }
}

/// The lines of a text, as `str::lines` yields them: a line ends at `\n` or
/// `\r\n`, which is not part of it; a bare `\r` stays in its line; text after
/// the last newline is a last line, and a final newline adds no empty line.
pub open spec fn lines_of(s: Seq<char>) -> Seq<Seq<char>> {
    let (done, current) = line_split(s);
    if current.len() > 0 {
        done.push(current)
    } else {
        done
    }
}

/// Relies on `str::lines`: lines end at `\n` or `\r\n`, the ending is not
/// part of a line, and a final ending adds no empty line.
#[verifier::external_body]
fn text_lines(s: &str) -> (r: Vec<String>)
    ensures
        strings_view(r@) == lines_of(s@),
{
    s.lines().map(|l| l.to_owned()).collect()
}

/// Whether `prefix` begins `s`.
fn has_prefix(s: &str, prefix: &str) -> (r: bool)
    ensures
        r == (prefix@.len() <= s@.len() && s@.subrange(0, prefix@.len() as int) == prefix@),
{
    let n: usize = prefix.unicode_len();
    let m: usize = s.unicode_len();
    if n > m {
        return false;
    }
    let mut i: usize = 0;
    while i < n
        invariant
            i <= n <= m,
            n == prefix@.len(),
            m == s@.len(),
            forall|j: int| 0 <= j < i ==> s@[j] == prefix@[j],
        decreases n - i,
    {
        if s.get_char(i) != prefix.get_char(i) {
            assert(s@.subrange(0, n as int)[i as int] != prefix@[i as int]);
            return false;
        }
        i = i + 1;
    }
    assert(s@.subrange(0, n as int) =~= prefix@);
    true
}

/// The metadata of the upper-casing plugin.
pub open spec fn uppercase_metadata() -> MetadataView {
    MetadataView {
        name: "Uppercase Converter"@,
        version: "0.1.0"@,
        description: "Converts input text to uppercase"@,
        author: "Vibe Coder Team"@,
    }
}

/// A plugin that turns the prompt into upper case.
pub struct UppercasePlugin {
    enabled: bool,
}

impl View for UppercasePlugin {
    type V = SamplePluginView;

    closed spec fn view(&self) -> SamplePluginView {
        SamplePluginView { metadata: uppercase_metadata(), enabled: self.enabled }
    }
}

impl UppercasePlugin {
    /// A plugin that is not initialised yet.
    pub fn new() -> (r: UppercasePlugin)
        ensures
            r@ == (SamplePluginView { metadata: uppercase_metadata(), enabled: false }),
    {
        UppercasePlugin { enabled: false }
    }

    /// Marks the plugin ready.
    pub fn enable(&mut self)
        ensures
            final(self)@ == (SamplePluginView { enabled: true, ..old(self)@ }),
    {
        self.enabled = true;
    }

    /// The upper-case form of `input`, once the plugin is initialised.
    pub fn convert(&self, input: &str) -> (r: Result<String, PluginError>)
        ensures
            self@.enabled ==> (r matches Ok(s) && s@ == uppercase_of(input@)),
            !self@.enabled ==> (r matches Err(e) && not_initialized(e)),
    {
        if !self.enabled {
            return Err(not_initialized_error());
        }
        Ok(to_uppercase(input))
    }
}

impl Plugin for UppercasePlugin {
    open spec fn spec_metadata(&self) -> MetadataView {
        uppercase_metadata()
    }

    open spec fn spec_capabilities(&self) -> Seq<PluginCapability> {
        seq![PluginCapability::PreProcessor]
    }

    open spec fn initialize_ok(&self, r: Result<(), PluginError>) -> bool {
        r is Ok
    }

    open spec fn initialized(&self, r: Result<(), PluginError>) -> bool {
        self@.enabled
    }

    /// Once initialised: the upper-case form; before: the not-initialised
    /// error.
    open spec fn pre_ok(&self, input: Seq<char>, out: Result<Seq<char>, PluginError>) -> bool {
        if self@.enabled {
            out == Ok::<Seq<char>, PluginError>(uppercase_of(input))
        } else {
            out matches Err(e) && not_initialized(e)
        }
    }

    fn metadata(&self) -> (r: PluginMetadata) {
        PluginMetadata {
            name: "Uppercase Converter".to_owned(),
            version: "0.1.0".to_owned(),
            description: "Converts input text to uppercase".to_owned(),
            author: "Vibe Coder Team".to_owned(),
        }
    }

    fn capabilities(&self) -> (r: Vec<PluginCapability>) {
        let mut r = Vec::new();
        r.push(PluginCapability::PreProcessor);
        proof {
            assert(r@ =~= seq![PluginCapability::PreProcessor]);
        }
        r
    }

    fn initialize(&mut self) -> (r: Result<(), PluginError>) {
        self.enable();
        Ok(())
    }

    fn pre_process(&self, input: &str) -> (r: Result<String, PluginError>) {
        self.convert(input)
    }

    fn post_process(&self, response: &str) -> (r: Result<String, PluginError>) {
        Ok(response.to_owned())
    }
}

impl Default for UppercasePlugin {
    fn default() -> (r: UppercasePlugin)
        ensures
            r@ == (SamplePluginView { metadata: uppercase_metadata(), enabled: false }),
    {
        UppercasePlugin::new()
    }
}

/// The line that marks the opening of a fenced code block.
pub open spec fn formatter_marker() -> Seq<char> {
    "// Formatted by Code Formatter Plugin\n"@
}

/// A line that opens or closes a fenced code block.
pub open spec fn is_fence(line: Seq<char>) -> bool {
    "```"@.len() <= line.len() && line.subrange(0, "```"@.len() as int) == "```"@
}

/// The output for `lines` and whether a fenced block is open after them.
/// Every line is written back followed by a newline; after each line that
/// opens a block the marker line follows.
pub open spec fn format_run(lines: Seq<Seq<char>>) -> (Seq<char>, bool)
    decreases lines.len(),
{
    if lines.len() == 0 {
        (Seq::empty(), false)
    } else {
        let (out, in_code) = format_run(lines.drop_last());
        let line = lines.last();
        if is_fence(line) && !in_code {
            (out + line + seq!['\n'] + formatter_marker(), true)
        } else if is_fence(line) {
            (out + line + seq!['\n'], false)
        } else {
            (out + line + seq!['\n'], in_code)
        }
    }
}

/// The formatted text for `lines`.
pub open spec fn formatted(lines: Seq<Seq<char>>) -> Seq<char> {
    format_run(lines).0
}

/// Writes `lines` back, each followed by a newline, with the marker line after
/// each line that opens a fenced code block.
pub fn format_code_lines(lines: &Vec<String>) -> (r: String)
    ensures
        r@ == formatted(strings_view(lines@)),
{
    let mut result = String::new();
    let mut in_code = false;
    let mut i: usize = 0;
    while i < lines.len()
        invariant
            0 <= i <= lines.len(),
            (result@, in_code) == format_run(strings_view(lines@.take(i as int))),
        decreases lines.len() - i,
    {
        let line = lines[i].as_str();
        let ghost before = result@;
        let fence = has_prefix(line, "```");
        result.append(line);
        result.append("\n");
        if fence && !in_code {
            result.append("// Formatted by Code Formatter Plugin\n");
            in_code = true;
        } else if fence {
            in_code = false;
        }
        proof {
            reveal_strlit("\n");
            let prefix = strings_view(lines@.take(i as int + 1));
            assert(prefix.drop_last() =~= strings_view(lines@.take(i as int)));
            assert(prefix.last() == line@);
            assert(before + line@ + "\n"@ =~= before + line@ + seq!['\n']);
        }
        i = i + 1;
    }
    proof {
        assert(lines@.take(i as int) =~= lines@);
    }
    result
}

/// The metadata of the code formatting plugin.
pub open spec fn code_formatter_metadata() -> MetadataView {
    MetadataView {
        name: "Code Formatter"@,
        version: "0.1.0"@,
        description: "Adds syntax highlighting hints to code blocks"@,
        author: "Vibe Coder Team"@,
    }
}

/// A plugin that marks the opening line of each fenced code block of a reply.
pub struct CodeFormatterPlugin {
    enabled: bool,
}

impl View for CodeFormatterPlugin {
    type V = SamplePluginView;

    closed spec fn view(&self) -> SamplePluginView {
        SamplePluginView { metadata: code_formatter_metadata(), enabled: self.enabled }
    }
}

impl CodeFormatterPlugin {
    /// A plugin that is not initialised yet.
    pub fn new() -> (r: CodeFormatterPlugin)
        ensures
            r@ == (SamplePluginView { metadata: code_formatter_metadata(), enabled: false }),
    {
        CodeFormatterPlugin { enabled: false }
    }

    /// Marks the plugin ready.
    pub fn enable(&mut self)
        ensures
            final(self)@ == (SamplePluginView { enabled: true, ..old(self)@ }),
    {
        self.enabled = true;
    }

    /// The formatted form of `response`, once the plugin is initialised.
    pub fn format(&self, response: &str) -> (r: Result<String, PluginError>)
        ensures
            self@.enabled ==> (r matches Ok(s) && s@ == formatted(lines_of(response@))),
            !self@.enabled ==> (r matches Err(e) && not_initialized(e)),
    {
        if !self.enabled {
            return Err(not_initialized_error());
        }
        let lines = text_lines(response);
        Ok(format_code_lines(&lines))
    }
}

impl Plugin for CodeFormatterPlugin {
    open spec fn spec_metadata(&self) -> MetadataView {
        code_formatter_metadata()
    }

    open spec fn spec_capabilities(&self) -> Seq<PluginCapability> {
        seq![PluginCapability::PostProcessor, PluginCapability::CodeFormatter]
    }

    open spec fn initialize_ok(&self, r: Result<(), PluginError>) -> bool {
        r is Ok
    }

    open spec fn initialized(&self, r: Result<(), PluginError>) -> bool {
        self@.enabled
    }

    /// Once initialised: the formatted lines; before: the not-initialised
    /// error.
    open spec fn post_ok(&self, response: Seq<char>, out: Result<Seq<char>, PluginError>) -> bool {
        if self@.enabled {
            out == Ok::<Seq<char>, PluginError>(formatted(lines_of(response)))
        } else {
            out matches Err(e) && not_initialized(e)
        }
    }

    fn metadata(&self) -> (r: PluginMetadata) {
        PluginMetadata {
            name: "Code Formatter".to_owned(),
            version: "0.1.0".to_owned(),
            description: "Adds syntax highlighting hints to code blocks".to_owned(),
            author: "Vibe Coder Team".to_owned(),
        }
    }

    fn capabilities(&self) -> (r: Vec<PluginCapability>) {
        let mut r = Vec::new();
        r.push(PluginCapability::PostProcessor);
        r.push(PluginCapability::CodeFormatter);
        proof {
            assert(r@ =~= seq![PluginCapability::PostProcessor, PluginCapability::CodeFormatter]);
        }
        r
    }

    fn initialize(&mut self) -> (r: Result<(), PluginError>) {
        self.enable();
        Ok(())
    }

    fn pre_process(&self, input: &str) -> (r: Result<String, PluginError>) {
        Ok(input.to_owned())
    }

    fn post_process(&self, response: &str) -> (r: Result<String, PluginError>) {
        self.format(response)
    }
}

impl Default for CodeFormatterPlugin {
    fn default() -> (r: CodeFormatterPlugin)
        ensures
            r@ == (SamplePluginView { metadata: code_formatter_metadata(), enabled: false }),
    {
        CodeFormatterPlugin::new()
    }
}

} // verus!
