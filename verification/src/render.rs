//! How a single file is rendered.
use vstd::prelude::*;

use crate::language;
use crate::lines;
use crate::numbering;
use crate::platform;
use crate::reading;
use crate::strings;

verus! {

/// Selects how [`print_file`] renders each file.
#[derive(Debug, Clone, Copy, PartialEq, Eq, Structural)]
pub enum OutputFormat {
    /// Plain text with configurable header prefix/suffix (default).
    Plain,
    /// GitHub-flavoured Markdown fenced code blocks with language annotation.
    Markdown,
    /// XML with a `<documents>` wrapper and indexed `<document>` tags.
    ///
    /// [`print_file`] writes one `<document>`; the outer `<documents>` /
    /// `</documents>` wrapper is written once around all of them.
    Cxml,
}

impl Default for OutputFormat {
    fn default() -> (format: OutputFormat)
        ensures
            format == OutputFormat::Plain,
    {
        OutputFormat::Plain
    }
}

/// Picks the output format that the `--markdown` and `--cxml` switches ask
/// for: Markdown before cxml, and plain text without either.
pub fn select_format(markdown: bool, cxml: bool) -> (format: OutputFormat)
    ensures
        format == (if markdown {
            OutputFormat::Markdown
        } else if cxml {
            OutputFormat::Cxml
        } else {
            OutputFormat::Plain
        }),
{
    if markdown {
        OutputFormat::Markdown
    } else if cxml {
        OutputFormat::Cxml
    } else {
        OutputFormat::Plain
    }
}

/// Options that control how [`print_file`] renders a single file.
pub struct PrintOptions<'a> {
    /// Prefix for the plain-text header line (e.g. `"--- "`).
    pub header_prefix: &'a str,
    /// Suffix for the plain-text header line (e.g. `" ---"`).
    pub header_suffix: &'a str,
    /// Output format variant.
    pub format: OutputFormat,
    /// Prepend 1-based line numbers to every content line.
    pub line_numbers: bool,
}

/// The print options as plain values.
#[verifier::ext_equal]
pub struct OptionsView {
    pub header_prefix: Seq<char>,
    pub header_suffix: Seq<char>,
    pub format: OutputFormat,
    pub line_numbers: bool,
}

impl View for PrintOptions<'_> {
    type V = OptionsView;

    open spec fn view(&self) -> OptionsView {
        OptionsView {
            header_prefix: self.header_prefix@,
            header_suffix: self.header_suffix@,
            format: self.format,
            line_numbers: self.line_numbers,
        }
    }
}

/// `text` with a line feed at its end, added only where there is none.
pub open spec fn newline_terminated(text: Seq<char>) -> Seq<char> {
    if text.len() > 0 && text.last() == '\n' {
        text
    } else {
        text.push('\n')
    }
}

/// What is printed of a file's text between its header and its footer.
pub open spec fn content(text: Seq<char>, line_numbers: bool) -> Seq<char> {
    if line_numbers {
        numbering::numbered(newline_terminated(text))
    } else {
        newline_terminated(text)
    }
}

/// The language tag of the file that is shown under the path `rel`: that of
/// its extension in lowercase, and none where there is no extension.
pub open spec fn fence_language(rel: Seq<char>) -> Seq<char> {
    match platform::path_extension(rel) {
        Some(ext) => language::language(platform::unicode_lowercase(ext)),
        None => ""@,
    }
}

/// A relative path to a file whose extension, if it has one, is ASCII.
pub open spec fn has_plain_extension(rel: Seq<char>) -> bool {
    &&& platform::is_plain_relative(rel)
    &&& platform::name_extension(platform::last_segment(rel)) matches Some(ext)
        ==> vstd::utf8::is_ascii_chars(ext)
}

/// The language tag of a path with a plain extension: that of the part behind
/// the last `.` of its last segment, with the letters in lowercase.
pub open spec fn plain_language(rel: Seq<char>) -> Seq<char> {
    match platform::name_extension(platform::last_segment(rel)) {
        Some(ext) => language::language(
            ext.map_values(|c: char| platform::ascii_lowercase(c)),
        ),
        None => ""@,
    }
}

/// The lines in front of the content. Only Markdown shows the language tag,
/// and only cxml the index.
pub open spec fn header(
    opts: OptionsView,
    rel: Seq<char>,
    lang: Seq<char>,
    doc_index: nat,
) -> Seq<char> {
    match opts.format {
        OutputFormat::Plain => (opts.header_prefix + rel + opts.header_suffix).push('\n'),
        OutputFormat::Markdown => ("## "@ + rel).push('\n') + ("```"@ + lang).push('\n'),
        OutputFormat::Cxml => ("<document index=\""@ + strings::decimal(doc_index)
            + "\">"@).push('\n') + ("<source>"@ + rel + "</source>"@).push('\n')
            + "<document_content>"@.push('\n'),
    }
}

/// The lines behind the content.
pub open spec fn footer(format: OutputFormat) -> Seq<char> {
    match format {
        OutputFormat::Plain => Seq::empty(),
        OutputFormat::Markdown => "```"@.push('\n'),
        OutputFormat::Cxml => "</document_content>"@.push('\n') + "</document>"@.push('\n'),
    }
}

/// A whole file as it is printed.
pub open spec fn document(
    opts: OptionsView,
    rel: Seq<char>,
    lang: Seq<char>,
    text: Seq<char>,
    doc_index: nat,
) -> Seq<char> {
    header(opts, rel, lang, doc_index) + content(text, opts.line_numbers) + footer(opts.format)
}

/// Adds a line feed to a text that does not end in one.
fn terminate(text: String) -> (result: String)
    ensures
        result@ == newline_terminated(text@),
{
    let len: usize = text.as_str().unicode_len();
    if len > 0 && text.as_str().get_char(len - 1) == '\n' {
        text
    } else {
        let mut result = text;
        result.push('\n');
        result
    }
}

/// Finds the language tag of the file that is shown under the path `rel`.
///
/// The case of the extension does not matter. A file without an extension, or
/// with one that is not known, has the empty tag.
pub fn path_to_language(rel: &str) -> (tag: &'static str)
    ensures
        tag@ == fence_language(rel@),
        has_plain_extension(rel@) ==> tag@ == plain_language(rel@),
{
    match platform::extension_of(rel) {
        Some(ext) => language::ext_to_language(ext.as_str().to_lowercase().as_str()),
        None => "",
    }
}

/// Appends a rendered file to `out`.
fn append_document(
    out: &mut String,
    text: String,
    rel: &str,
    lang: &str,
    opts: &PrintOptions<'_>,
    doc_index: usize,
)
    ensures
        final(out)@ == old(out)@ + document(opts@, rel@, lang@, text@, doc_index as nat),
{
    let ghost start = out@;
    let ghost original = text@;
    let terminated = terminate(text);
    let content = if opts.line_numbers {
        numbering::add_line_numbers(terminated.as_str())
    } else {
        terminated
    };
    match opts.format {
        OutputFormat::Plain => {
            out.append(opts.header_prefix);
            out.append(rel);
            out.append(opts.header_suffix);
            out.push('\n');
            assert(out@ =~= start + header(opts@, rel@, lang@, doc_index as nat));
            out.append(content.as_str());
        },
        OutputFormat::Markdown => {
            out.append("## ");
            out.append(rel);
            out.push('\n');
            out.append("```");
            out.append(lang);
            out.push('\n');
            assert(out@ =~= start + header(opts@, rel@, lang@, doc_index as nat));
            out.append(content.as_str());
            out.append("```");
            out.push('\n');
        },
        OutputFormat::Cxml => {
            let index = strings::decimal_text(doc_index);
            out.append("<document index=\"");
            out.append(index.as_str());
            out.append("\">");
            out.push('\n');
            out.append("<source>");
            out.append(rel);
            out.append("</source>");
            out.push('\n');
            out.append("<document_content>");
            out.push('\n');
            assert(out@ =~= start + header(opts@, rel@, lang@, doc_index as nat));
            out.append(content.as_str());
            out.append("</document_content>");
            out.push('\n');
            out.append("</document>");
            out.push('\n');
        },
    }
    assert(out@ =~= start + document(opts@, rel@, lang@, original, doc_index as nat));
}

/// Renders `text` under the path `rel` and appends it to `out`. `lang` is the
/// tag of the Markdown fence; the other formats do not show it.
pub fn print_text(
    out: &mut String,
    text: String,
    rel: &str,
    lang: &str,
    opts: &PrintOptions<'_>,
    doc_index: usize,
)
    ensures
        final(out)@ == old(out)@ + document(opts@, rel@, lang@, text@, doc_index as nat),
        ({
            let ended = if text@.len() > 0 && text@.last() == '\n' {
                text@
            } else {
                text@.push('\n')
            };
            let body = if opts.line_numbers {
                numbering::numbered(ended)
            } else {
                ended
            };
            final(out)@ == old(out)@ + (match opts.format {
                OutputFormat::Plain => opts.header_prefix@ + rel@ + opts.header_suffix@ + seq!['\n']
                    + body,
                OutputFormat::Markdown => "## "@ + rel@ + seq!['\n'] + "```"@ + lang@ + seq!['\n']
                    + body + "```"@ + seq!['\n'],
                OutputFormat::Cxml => "<document index=\""@ + strings::decimal(doc_index as nat)
                    + "\">"@ + seq!['\n'] + "<source>"@ + rel@ + "</source>"@ + seq!['\n']
                    + "<document_content>"@ + seq!['\n'] + body + "</document_content>"@ + seq!['\n']
                    + "</document>"@ + seq!['\n'],
            })
        }),
{
    proof {
        law_document_in_characters(opts@, rel@, lang@, text@, doc_index as nat);
    }
    append_document(out, text, rel, lang, opts, doc_index);
}

/// Renders a single file, header and content, in the requested format and
/// appends it to `out`. `read` is what reading the file gave.
///
/// Returns `true` if the file was written, or `false` if it was skipped
/// because its bytes are not UTF-8. `doc_index` is used only by
/// [`OutputFormat::Cxml`]; pass any value for other formats.
///
/// # Errors
///
/// Hands on the error of the read; nothing is appended then.
pub fn print_file<E>(
    out: &mut String,
    read: Result<Vec<u8>, E>,
    rel: &str,
    opts: &PrintOptions<'_>,
    doc_index: usize,
) -> (result: Result<bool, E>)
    ensures
        match read {
            Ok(bytes) => if vstd::utf8::valid_utf8(bytes@) {
                &&& result == Ok::<bool, E>(true)
                &&& final(out)@ == old(out)@ + document(
                    opts@,
                    rel@,
                    fence_language(rel@),
                    vstd::utf8::decode_utf8(bytes@),
                    doc_index as nat,
                )
                &&& opts@.format == OutputFormat::Markdown && has_plain_extension(rel@)
                    ==> fence_language(rel@) == plain_language(rel@)
            } else {
                &&& result == Ok::<bool, E>(false)
                &&& final(out)@ == old(out)@
            },
            Err(error) => {
                &&& result == Err::<bool, E>(error)
                &&& final(out)@ == old(out)@
            },
        },
{
    match reading::read_text(read) {
        Ok(Some(text)) => {
            let lang = if opts.format == OutputFormat::Markdown {
                path_to_language(rel)
            } else {
                ""
            };
            print_text(out, text, rel, lang, opts, doc_index);
            Ok(true)
        },
        Ok(None) => Ok(false),
        Err(error) => Err(error),
    }
}

/// Terminating a text keeps its characters, is done once at most, and keeps
/// its lines. The lines stay the same for all but two kinds of text: empty text
/// gains an empty line, and a carriage return at the very end becomes part of
/// the line ending.
pub proof fn law_termination(text: Seq<char>)
    ensures
        newline_terminated(text).len() > 0,
        newline_terminated(text).last() == '\n',
        text.is_prefix_of(newline_terminated(text)),
        newline_terminated(newline_terminated(text)) == newline_terminated(text),
        text.len() > 0 && text.last() != '\r' ==> lines::lines(newline_terminated(text))
            == lines::lines(text),
        text.len() == 0 ==> lines::lines(newline_terminated(text)) == seq![Seq::<char>::empty()],
{
    if !(text.len() > 0 && text.last() == '\n') {
        let pieces = lines::split(text, '\n');
        let after = newline_terminated(text);
        lines::law_split_join(text, '\n');
        assert(after.drop_last() =~= text);
        assert(lines::split(after, '\n') == pieces.push(Seq::empty()));
        if text.len() > 0 {
            assert(pieces.last().len() > 0 && pieces.last().last() == text.last());
            if text.last() != '\r' {
                assert(lines::lines(after) =~= lines::lines(text));
            }
        } else {
            assert(lines::lines(after) =~= seq![Seq::<char>::empty()]);
        }
    }
}

/// The content of a file is never empty and ends in a line feed, numbered or
/// not, so that what follows it starts on a line of its own.
pub proof fn law_content_ends_line(text: Seq<char>, line_numbers: bool)
    ensures
        content(text, line_numbers).len() > 0,
        content(text, line_numbers).last() == '\n',
{
    law_termination(text);
    numbering::law_trailing_line_feed(newline_terminated(text));
}

/// A printed file ends in a line feed, and so does its header.
pub proof fn law_document_ends_line(
    opts: OptionsView,
    rel: Seq<char>,
    lang: Seq<char>,
    text: Seq<char>,
    doc_index: nat,
)
    ensures
        header(opts, rel, lang, doc_index).len() > 0,
        header(opts, rel, lang, doc_index).last() == '\n',
        document(opts, rel, lang, text, doc_index).len() > 0,
        document(opts, rel, lang, text, doc_index).last() == '\n',
{
    law_content_ends_line(text, opts.line_numbers);
}

/// The index of a document shows in cxml only, the language tag in Markdown
/// only, and the header prefix and suffix in plain text only.
pub proof fn law_options_apply_to_their_format(
    a: OptionsView,
    b: OptionsView,
    rel: Seq<char>,
    lang_a: Seq<char>,
    lang_b: Seq<char>,
    text: Seq<char>,
    index_a: nat,
    index_b: nat,
)
    requires
        a.format == b.format,
        a.line_numbers == b.line_numbers,
        a.format == OutputFormat::Cxml ==> index_a == index_b,
        a.format == OutputFormat::Markdown ==> lang_a == lang_b,
        a.format == OutputFormat::Plain ==> a.header_prefix == b.header_prefix && a.header_suffix
            == b.header_suffix,
    ensures
        document(a, rel, lang_a, text, index_a) == document(b, rel, lang_b, text, index_b),
{
}

/// The case of an extension does not matter to the language tag: two paths
/// whose extensions differ in the case of ASCII letters only have the same.
pub proof fn law_extension_case_is_ignored(rel_a: Seq<char>, rel_b: Seq<char>)
    requires
        ({
            let ext_a = platform::name_extension(platform::last_segment(rel_a));
            let ext_b = platform::name_extension(platform::last_segment(rel_b));
            &&& ext_a is Some && ext_b is Some
            &&& ext_a->0.len() == ext_b->0.len()
            &&& forall|i: int|
                0 <= i < ext_a->0.len() ==> #[trigger] platform::ascii_lowercase(ext_a->0[i])
                    == platform::ascii_lowercase(ext_b->0[i])
        }),
    ensures
        plain_language(rel_a) == plain_language(rel_b),
{
    let ext_a = platform::name_extension(platform::last_segment(rel_a))->0;
    let ext_b = platform::name_extension(platform::last_segment(rel_b))->0;
    let lower = |c: char| platform::ascii_lowercase(c);
    assert(ext_a.map_values(lower) =~= ext_b.map_values(lower)) by {
        assert forall|i: int| 0 <= i < ext_a.len() implies lower(ext_a[i]) == lower(ext_b[i]) by {
            assert(platform::ascii_lowercase(ext_a[i]) == platform::ascii_lowercase(ext_b[i]));
        }
    }
}

/// A printed file in characters. The content is the text, with a line feed added
/// where its end lacks one, and with line numbers where they are asked for. In
/// front of it stands, in plain text, one line of prefix, path and suffix; in
/// Markdown the path as a heading and the fence with the tag; in cxml the index
/// and the path in their elements. Behind it stands what closes these.
pub proof fn law_document_in_characters(
    opts: OptionsView,
    rel: Seq<char>,
    lang: Seq<char>,
    text: Seq<char>,
    doc_index: nat,
)
    ensures
        ({
            let ended = if text.len() > 0 && text.last() == '\n' {
                text
            } else {
                text.push('\n')
            };
            let body = if opts.line_numbers {
                numbering::numbered(ended)
            } else {
                ended
            };
            document(opts, rel, lang, text, doc_index) == (match opts.format {
                OutputFormat::Plain => opts.header_prefix + rel + opts.header_suffix + seq!['\n']
                    + body,
                OutputFormat::Markdown => "## "@ + rel + seq!['\n'] + "```"@ + lang + seq!['\n'] + body
                    + "```"@ + seq!['\n'],
                OutputFormat::Cxml => "<document index=\""@ + strings::decimal(doc_index) + "\">"@
                    + seq!['\n'] + "<source>"@ + rel + "</source>"@ + seq!['\n']
                    + "<document_content>"@ + seq!['\n'] + body + "</document_content>"@ + seq!['\n']
                    + "</document>"@ + seq!['\n'],
            })
        }),
{
    let ended = if text.len() > 0 && text.last() == '\n' {
        text
    } else {
        text.push('\n')
    };
    let body = if opts.line_numbers {
        numbering::numbered(ended)
    } else {
        ended
    };
    let whole = document(opts, rel, lang, text, doc_index);
    match opts.format {
        OutputFormat::Plain => {
            assert(whole =~= opts.header_prefix + rel + opts.header_suffix + seq!['\n'] + body);
        },
        OutputFormat::Markdown => {
            assert(whole =~= "## "@ + rel + seq!['\n'] + "```"@ + lang + seq!['\n'] + body + "```"@
                + seq!['\n']);
        },
        OutputFormat::Cxml => {
            assert(whole =~= "<document index=\""@ + strings::decimal(doc_index) + "\">"@
                + seq!['\n'] + "<source>"@ + rel + "</source>"@ + seq!['\n']
                + "<document_content>"@ + seq!['\n'] + body + "</document_content>"@ + seq!['\n']
                + "</document>"@ + seq!['\n']);
        },
    }
}

/// The header options show: in plain text, what is printed starts with the
/// prefix, the path, the suffix and a line feed, so that two prefixes of one
/// length, or else two suffixes of one length, give different output.
pub proof fn law_header_options_show(
    a: OptionsView,
    b: OptionsView,
    rel: Seq<char>,
    lang: Seq<char>,
    text: Seq<char>,
    doc_index: nat,
)
    requires
        a.format == OutputFormat::Plain,
        b.format == OutputFormat::Plain,
        a.header_prefix.len() == b.header_prefix.len(),
        a.header_suffix.len() == b.header_suffix.len(),
    ensures
        (a.header_prefix + rel + a.header_suffix + seq!['\n']).is_prefix_of(
            document(a, rel, lang, text, doc_index),
        ),
        a.header_prefix != b.header_prefix || a.header_suffix != b.header_suffix ==> document(
            a,
            rel,
            lang,
            text,
            doc_index,
        ) != document(b, rel, lang, text, doc_index),
{
    let first = document(a, rel, lang, text, doc_index);
    let second = document(b, rel, lang, text, doc_index);
    let p = a.header_prefix.len() as int;
    let s = p + rel.len();
    let e = s + a.header_suffix.len();
    law_document_in_characters(a, rel, lang, text, doc_index);
    law_document_in_characters(b, rel, lang, text, doc_index);
    assert(a.header_prefix + rel + a.header_suffix + seq!['\n'] =~= first.take(e + 1));
    if first == second {
        assert(a.header_prefix =~= first.take(p));
        assert(b.header_prefix =~= second.take(p));
        assert(a.header_suffix =~= first.subrange(s, e));
        assert(b.header_suffix =~= second.subrange(s, e));
    }
}

/// Terminating a text adds one line feed where its end lacks one, and otherwise
/// nothing.
pub proof fn law_termination_in_characters(text: Seq<char>)
    ensures
        text.len() > 0 && text.last() == '\n' ==> newline_terminated(text) == text,
        text.len() == 0 || text.last() != '\n' ==> newline_terminated(text) == text + seq!['\n'],
        content(text, false) == newline_terminated(text),
        content(text, true) == numbering::numbered(newline_terminated(text)),
{
    if text.len() == 0 || text.last() != '\n' {
        assert(newline_terminated(text) =~= text + seq!['\n']);
    }
}

/// The options as values are the options as they were given.
pub proof fn law_options_as_given(opts: PrintOptions<'_>)
    ensures
        opts@.header_prefix == opts.header_prefix@,
        opts@.header_suffix == opts.header_suffix@,
        opts@.format == opts.format,
        opts@.line_numbers == opts.line_numbers,
{
}

/// The fence is labelled by the extension of the path, in lowercase, and stays
/// unlabelled where there is none.
pub proof fn law_fence_follows_extension(rel: Seq<char>)
    ensures
        platform::path_extension(rel) matches Some(ext) ==> fence_language(rel)
            == language::language(platform::unicode_lowercase(ext)),
        platform::path_extension(rel) is None ==> fence_language(rel).len() == 0,
{
    reveal_strlit("");
}

/// Behind the last occurrence of a character stands what follows it.
proof fn lemma_after_last(front: Seq<char>, c: char, tail: Seq<char>)
    requires
        !tail.contains(c),
    ensures
        platform::after_last(front.push(c) + tail, c) == Some(tail),
    decreases tail.len(),
{
    let whole = front.push(c) + tail;
    if tail.len() == 0 {
        assert(tail =~= Seq::empty());
    } else {
        assert(tail.contains(tail.last()));
        assert forall|i: int| 0 <= i < tail.drop_last().len() implies tail.drop_last()[i] != c by {
            assert(tail.contains(tail[i]));
        }
        lemma_after_last(front, c, tail.drop_last());
        assert(whole.drop_last() =~= front.push(c) + tail.drop_last());
        assert(tail.drop_last().push(tail.last()) =~= tail);
    }
}

/// Without an occurrence there is nothing behind one.
proof fn lemma_after_none(text: Seq<char>, c: char)
    requires
        !text.contains(c),
    ensures
        platform::after_last(text, c) is None,
    decreases text.len(),
{
    if text.len() > 0 {
        assert(text.contains(text.last()));
        assert forall|i: int| 0 <= i < text.drop_last().len() implies text.drop_last()[i] != c by {
            assert(text.contains(text[i]));
        }
        lemma_after_none(text.drop_last(), c);
    }
}

/// What a directory part and a file name behind it make up ends in that name.
proof fn lemma_last_segment(dir: Seq<char>, name: Seq<char>)
    requires
        dir.len() == 0 || dir.last() == '/',
        !name.contains('/'),
    ensures
        platform::last_segment(dir + name) == name,
{
    if dir.len() == 0 {
        assert(dir + name =~= name);
        lemma_after_none(name, '/');
    } else {
        lemma_after_last(dir.drop_last(), '/', name);
        assert(dir.drop_last().push('/') =~= dir);
    }
}

/// The tag of a path is that of its extension: of a file name with a `.` that is
/// not its first character, what stands behind the last `.`, with ASCII capitals
/// replaced by their small letters. The directories in front and the rest of the
/// name do not matter.
pub proof fn law_tag_of_a_path(
    dir: Seq<char>,
    stem: Seq<char>,
    ext: Seq<char>,
    lower: Seq<char>,
)
    requires
        dir.len() == 0 || dir.last() == '/' && dir[0] != '/',
        stem.len() > 0,
        !stem.contains('/'),
        ext.len() > 0,
        !ext.contains('/'),
        !ext.contains('.'),
        vstd::utf8::is_ascii_chars(ext),
        !(dir + stem.push('.') + ext).contains('\\'),
        !(dir + stem.push('.') + ext).contains(':'),
        lower.len() == ext.len(),
        forall|i: int|
            #![trigger lower[i]]
            0 <= i < ext.len() ==> if 'A' <= ext[i] <= 'Z' {
                'a' <= lower[i] <= 'z' && lower[i] as u32 - 'a' as u32 == ext[i] as u32 - 'A' as u32
            } else {
                lower[i] == ext[i]
            },
    ensures
        has_plain_extension(dir + stem.push('.') + ext),
        plain_language(dir + stem.push('.') + ext) == language::language(lower),
{
    let name = stem.push('.') + ext;
    let rel = dir + stem.push('.') + ext;
    assert(rel =~= dir + name);
    assert(!name.contains('/')) by {
        assert forall|i: int| 0 <= i < name.len() implies name[i] != '/' by {
            if i < stem.len() {
                assert(stem.contains(stem[i]));
            } else if i > stem.len() {
                assert(ext.contains(ext[i - stem.len() - 1]));
            }
        }
    }
    lemma_last_segment(dir, name);
    lemma_after_last(stem, '.', ext);
    assert(rel[0] != '/') by {
        if dir.len() == 0 {
            assert(rel[0] == stem[0]);
            assert(stem.contains(stem[0]));
        } else {
            assert(rel[0] == dir[0]);
        }
    }
    assert(name.len() >= 3);
    assert forall|i: int| 0 <= i < ext.len() implies platform::ascii_lowercase(#[trigger] ext[i])
        == lower[i] by {
        if 'A' <= ext[i] <= 'Z' {
            assert('a' <= lower[i] <= 'z');
        }
    }
    assert(ext.map_values(|c: char| platform::ascii_lowercase(c)) =~= lower);
}

/// A file name without a `.`, or with none behind its first character, has no
/// tag.
pub proof fn law_no_extension_no_tag(dir: Seq<char>, name: Seq<char>)
    requires
        dir.len() == 0 || dir.last() == '/' && dir[0] != '/',
        name.len() > 0,
        name != seq!['.'],
        !name.contains('/'),
        forall|i: int| 1 <= i < name.len() ==> name[i] != '.',
        !(dir + name).contains('\\'),
        !(dir + name).contains(':'),
    ensures
        has_plain_extension(dir + name),
        plain_language(dir + name).len() == 0,
{
    reveal_strlit("");
    lemma_last_segment(dir, name);
    assert((dir + name)[0] != '/') by {
        if dir.len() == 0 {
            assert((dir + name)[0] == name[0]);
            assert(name.contains(name[0]));
        } else {
            assert((dir + name)[0] == dir[0]);
        }
    }
    if name[0] == '.' {
        let tail = name.drop_first();
        assert forall|i: int| 0 <= i < tail.len() implies tail[i] != '.' by {
            assert(tail[i] == name[i + 1]);
        }
        lemma_after_last(Seq::empty(), '.', tail);
        assert(Seq::<char>::empty().push('.') + tail =~= name);
        if name.len() == 2 {
            assert(name[1] != '.');
        }
    } else {
        lemma_after_none(name, '.');
        assert(name[0] != seq!['.', '.'][0]);
    }
}

} // verus!
