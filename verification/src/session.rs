//! A whole run: many files, one after the other, into one output.
use vstd::prelude::*;

use crate::render;
use crate::render::{OutputFormat, PrintOptions};

verus! {

/// The state of a run.
pub struct Session<'a> {
    opts: PrintOptions<'a>,
    separator: bool,
    doc_index: usize,
}

/// The state of a run as plain values.
#[verifier::ext_equal]
pub struct SessionView {
    /// How each file is rendered.
    pub opts: render::OptionsView,
    /// Whether plain output has a blank line in front of every file but the
    /// first.
    pub separator: bool,
    /// The index that the next printed file gets, counted from one.
    pub doc_index: nat,
}

impl View for Session<'_> {
    type V = SessionView;

    closed spec fn view(&self) -> SessionView {
        SessionView {
            opts: self.opts@,
            separator: self.separator,
            doc_index: self.doc_index as nat,
        }
    }
}

/// A file of a run: the bytes that were read and the path it is shown under.
#[verifier::ext_equal]
pub struct SourceFile {
    pub bytes: Seq<u8>,
    pub rel: Seq<char>,
}

/// The state that a run starts in.
pub open spec fn initial(opts: render::OptionsView, separator: bool) -> SessionView {
    SessionView { opts, separator, doc_index: 1 }
}

/// What the output opens with.
pub open spec fn opening(format: OutputFormat) -> Seq<char> {
    if format == OutputFormat::Cxml {
        "<documents>"@.push('\n')
    } else {
        Seq::empty()
    }
}

/// What the output closes with.
pub open spec fn closing(format: OutputFormat) -> Seq<char> {
    if format == OutputFormat::Cxml {
        "</documents>"@.push('\n')
    } else {
        Seq::empty()
    }
}

/// A blank line in plain output, nothing in the other formats.
pub open spec fn blank_line(format: OutputFormat) -> Seq<char> {
    if format == OutputFormat::Plain {
        seq!['\n']
    } else {
        Seq::empty()
    }
}

/// What is printed of a text file: the rendered file and, in plain output, a
/// blank line behind it.
pub open spec fn entry(opts: render::OptionsView, file: SourceFile, doc_index: nat) -> Seq<char> {
    render::document(
        opts,
        file.rel,
        render::fence_language(file.rel),
        vstd::utf8::decode_utf8(file.bytes),
        doc_index,
    ) + blank_line(opts.format)
}

impl SessionView {
    /// What stands in front of the next file.
    pub open spec fn lead(self) -> Seq<char> {
        if self.separator && self.doc_index != 1 {
            blank_line(self.opts.format)
        } else {
            Seq::empty()
        }
    }

    /// What the next file adds to the output.
    pub open spec fn output(self, file: SourceFile) -> Seq<char> {
        if vstd::utf8::valid_utf8(file.bytes) {
            self.lead() + entry(self.opts, file, self.doc_index)
        } else {
            self.lead()
        }
    }

    /// The state behind the next file: a printed file takes an index, a
    /// skipped one changes nothing.
    pub open spec fn after(self, file: SourceFile) -> SessionView {
        if vstd::utf8::valid_utf8(file.bytes) {
            SessionView { doc_index: self.doc_index + 1, ..self }
        } else {
            self
        }
    }

    /// The state behind a list of files.
    pub open spec fn after_all(self, files: Seq<SourceFile>) -> SessionView
        decreases files.len(),
    {
        if files.len() == 0 {
            self
        } else {
            self.after_all(files.drop_last()).after(files.last())
        }
    }

    /// What a list of files adds to the output.
    pub open spec fn output_all(self, files: Seq<SourceFile>) -> Seq<char>
        decreases files.len(),
    {
        if files.len() == 0 {
            Seq::empty()
        } else {
            self.output_all(files.drop_last()) + self.after_all(files.drop_last()).output(
                files.last(),
            )
        }
    }
}

impl<'a> Session<'a> {
    /// Starts a run. With `separator`, plain output has a blank line in front
    /// of every file once one has been printed.
    pub fn new(opts: PrintOptions<'a>, separator: bool) -> (session: Session<'a>)
        ensures
            session@ == initial(opts@, separator),
            session@.opts == opts@,
            session@.separator == separator,
            session@.doc_index == 1,
    {
        Session { opts, separator, doc_index: 1 }
    }

    /// The index that the next printed file gets.
    pub fn doc_index(&self) -> (index: usize)
        ensures
            index == self@.doc_index,
    {
        self.doc_index
    }

    /// Appends what the output opens with.
    pub fn open(&self, out: &mut String)
        ensures
            final(out)@ == old(out)@ + opening(self@.opts.format),
            self@.opts.format == OutputFormat::Cxml ==> final(out)@ == old(out)@ + "<documents>"@ + seq![
                '\n',
            ],
            self@.opts.format != OutputFormat::Cxml ==> final(out)@ == old(out)@,
    {
        let ghost start = out@;
        if self.opts.format == OutputFormat::Cxml {
            out.append("<documents>");
            out.push('\n');
        }
        assert(out@ =~= start + opening(self@.opts.format));
    }

    /// Appends what the output closes with.
    pub fn close(&self, out: &mut String)
        ensures
            final(out)@ == old(out)@ + closing(self@.opts.format),
            self@.opts.format == OutputFormat::Cxml ==> final(out)@ == old(out)@ + "</documents>"@ + seq![
                '\n',
            ],
            self@.opts.format != OutputFormat::Cxml ==> final(out)@ == old(out)@,
    {
        let ghost start = out@;
        if self.opts.format == OutputFormat::Cxml {
            out.append("</documents>");
            out.push('\n');
        }
        assert(out@ =~= start + closing(self@.opts.format));
    }

    /// Appends the next file of the run, with the blank lines around it. `read`
    /// is what reading the file gave and `rel` the path it is shown under.
    ///
    /// Returns `true` if the file was printed and `false` if it was skipped
    /// because its bytes are not UTF-8.
    ///
    /// # Errors
    ///
    /// Hands on the error of the read.
    pub fn print_entry<E>(
        &mut self,
        out: &mut String,
        read: Result<Vec<u8>, E>,
        rel: &str,
    ) -> (result: Result<bool, E>)
        requires
            old(self)@.doc_index < usize::MAX,
        ensures
            match read {
                Ok(bytes) => {
                    let file = SourceFile { bytes: bytes@, rel: rel@ };
                    &&& result == Ok::<bool, E>(vstd::utf8::valid_utf8(bytes@))
                    &&& final(self)@ == old(self)@.after(file)
                    &&& final(out)@ == old(out)@ + old(self)@.output(file)
                    &&& result == Ok::<bool, E>(true) && old(self)@.opts.format
                        == OutputFormat::Markdown && render::has_plain_extension(rel@)
                        ==> render::fence_language(rel@) == render::plain_language(rel@)
                },
                Err(error) => {
                    &&& result == Err::<bool, E>(error)
                    &&& final(self)@ == old(self)@
                    &&& final(out)@ == old(out)@ + old(self)@.lead()
                },
            },
            final(self)@.opts == old(self)@.opts,
            final(self)@.separator == old(self)@.separator,
            final(self)@.doc_index == old(self)@.doc_index + (if result matches Ok(true) {
                1int
            } else {
                0
            }),
            ({
                let plain = old(self)@.opts.format == OutputFormat::Plain;
                let front = if plain && old(self)@.separator && old(self)@.doc_index != 1 {
                    seq!['\n']
                } else {
                    Seq::empty()
                };
                match read {
                    Ok(bytes) if vstd::utf8::valid_utf8(bytes@) => final(out)@ == old(out)@ + front
                        + render::document(
                        old(self)@.opts,
                        rel@,
                        render::fence_language(rel@),
                        vstd::utf8::decode_utf8(bytes@),
                        old(self)@.doc_index,
                    ) + (if plain {
                        seq!['\n']
                    } else {
                        Seq::empty()
                    }),
                    _ => final(out)@ == old(out)@ + front,
                }
            }),
    {
        let ghost start = out@;
        let ghost state = self@;
        let plain = self.opts.format == OutputFormat::Plain;
        if plain && self.separator && self.doc_index != 1 {
            out.push('\n');
        }
        assert(out@ =~= start + state.lead());
        let result = render::print_file(out, read, rel, &self.opts, self.doc_index);
        if let Ok(true) = result {
            self.doc_index = self.doc_index + 1;
            if plain {
                out.push('\n');
            }
            assert(read matches Ok(bytes) && out@ =~= start + state.output(
                SourceFile { bytes: bytes@, rel: rel@ },
            ));
        }
        result
    }
}

/// The files of a list whose bytes are UTF-8, in order.
pub open spec fn text_files(files: Seq<SourceFile>) -> Seq<SourceFile> {
    files.filter(|file: SourceFile| vstd::utf8::valid_utf8(file.bytes))
}

/// The entries of a list of text files, indexed from one.
pub open spec fn entries(opts: render::OptionsView, files: Seq<SourceFile>) -> Seq<Seq<char>> {
    Seq::new(files.len(), |i: int| entry(opts, files[i], (i + 1) as nat))
}

/// The indices are consecutive: a run over any files ends with one index used
/// for each text file among them, and skipped files use none.
pub proof fn law_indices_count_printed_files(
    opts: render::OptionsView,
    separator: bool,
    files: Seq<SourceFile>,
)
    ensures
        initial(opts, separator).after_all(files) == (SessionView {
            doc_index: text_files(files).len() + 1,
            ..initial(opts, separator)
        }),
    decreases files.len(),
{
    reveal(Seq::filter);
    if files.len() > 0 {
        law_indices_count_printed_files(opts, separator, files.drop_last());
    }
}

/// Without separator lines, the output of a run is the entries of its text
/// files, in order and indexed from one without gaps. Files that are not text
/// leave no trace. This holds of Markdown and cxml always, and of plain output
/// where no separator is asked for.
pub proof fn law_output_is_the_entries(
    opts: render::OptionsView,
    separator: bool,
    files: Seq<SourceFile>,
)
    requires
        !separator || opts.format != OutputFormat::Plain,
    ensures
        initial(opts, separator).output_all(files) == entries(opts, text_files(files)).flatten(),
    decreases files.len(),
{
    reveal(Seq::filter);
    let start = initial(opts, separator);
    if files.len() == 0 {
        assert(entries(opts, text_files(files)) =~= Seq::empty());
    } else {
        let front = files.drop_last();
        let file = files.last();
        law_output_is_the_entries(opts, separator, front);
        law_indices_count_printed_files(opts, separator, front);
        let state = start.after_all(front);
        assert(state.lead() =~= Seq::empty());
        if vstd::utf8::valid_utf8(file.bytes) {
            let done = entries(opts, text_files(front));
            let next = entry(opts, file, state.doc_index);
            assert(entries(opts, text_files(files)) =~= done.push(next));
            done.lemma_flatten_push(next);
            assert(state.output(file) =~= next);
        } else {
            assert(text_files(files) == text_files(front));
            assert(start.output_all(files) =~= start.output_all(front));
        }
    }
}

/// How many text files come before position `i` of a list.
pub open spec fn printed_before(files: Seq<SourceFile>, i: int) -> nat {
    text_files(files.take(i)).len()
}

/// What the file at position `i` of a run adds to its output: with separator
/// lines, a blank line in plain output once a file has been printed; and of a
/// text file its entry, with the next index.
pub open spec fn contribution(
    opts: render::OptionsView,
    separator: bool,
    files: Seq<SourceFile>,
    i: int,
) -> Seq<char> {
    let front = if separator && printed_before(files, i) > 0 {
        blank_line(opts.format)
    } else {
        Seq::empty()
    };
    if vstd::utf8::valid_utf8(files[i].bytes) {
        front + entry(opts, files[i], printed_before(files, i) + 1)
    } else {
        front
    }
}

/// The output of any run, over files of any kind: each file read after the
/// first printed one has one separator line in front, where separator lines are
/// asked for and the format is plain, and the entries are those of the text
/// files, in order and indexed from one.
pub proof fn law_output_of_any_run(
    opts: render::OptionsView,
    separator: bool,
    files: Seq<SourceFile>,
)
    ensures
        initial(opts, separator).output_all(files) == Seq::new(
            files.len(),
            |i: int| contribution(opts, separator, files, i),
        ).flatten(),
        forall|i: int|
            0 <= i < files.len() && vstd::utf8::valid_utf8((#[trigger] files[i]).bytes) ==> {
                &&& printed_before(files, i) < text_files(files).len()
                &&& text_files(files)[printed_before(files, i) as int] == files[i]
            },
    decreases files.len(),
{
    let start = initial(opts, separator);
    let all = Seq::new(files.len(), |i: int| contribution(opts, separator, files, i));
    lemma_text_file_positions(files);
    if files.len() == 0 {
        assert(all =~= Seq::empty());
    } else {
        let front = files.drop_last();
        let last = files.len() - 1;
        let done = Seq::new(front.len(), |i: int| contribution(opts, separator, front, i));
        let next = contribution(opts, separator, files, last);
        law_output_of_any_run(opts, separator, front);
        law_indices_count_printed_files(opts, separator, front);
        assert(files.take(last) =~= front);
        assert(start.after_all(front).output(files.last()) =~= next);
        assert(all =~= done.push(next)) by {
            assert forall|i: int| 0 <= i < front.len() implies all[i] == done[i] by {
                assert(front.take(i) =~= files.take(i));
            }
        }
        done.lemma_flatten_push(next);
    }
}

proof fn lemma_text_file_positions(files: Seq<SourceFile>)
    ensures
        forall|i: int|
            0 <= i < files.len() && vstd::utf8::valid_utf8((#[trigger] files[i]).bytes) ==> {
                &&& printed_before(files, i) < text_files(files).len()
                &&& text_files(files)[printed_before(files, i) as int] == files[i]
            },
    decreases files.len(),
{
    if files.len() > 0 {
        let front = files.drop_last();
        let last = files.len() - 1;
        lemma_text_file_positions(front);
        assert(files.take(last) =~= front);
        assert(text_files(files) == if vstd::utf8::valid_utf8(files.last().bytes) {
            text_files(front).push(files.last())
        } else {
            text_files(front)
        }) by {
            reveal(Seq::filter);
        }
        assert forall|i: int|
            0 <= i < files.len() && vstd::utf8::valid_utf8((#[trigger] files[i]).bytes) implies {
            &&& printed_before(files, i) < text_files(files).len()
            &&& text_files(files)[printed_before(files, i) as int] == files[i]
        } by {
            if i < last {
                assert(front[i] == files[i]);
                assert(front.take(i) =~= files.take(i));
            }
        }
    }
}

/// With separator lines, plain output of nothing but text files has one more
/// blank line in front of every entry but the first.
pub proof fn law_separator_between_entries(opts: render::OptionsView, files: Seq<SourceFile>)
    requires
        opts.format == OutputFormat::Plain,
        forall|i: int|
            0 <= i < files.len() ==> vstd::utf8::valid_utf8((#[trigger] files[i]).bytes),
    ensures
        initial(opts, true).output_all(files) == separated(entries(opts, files)).flatten(),
    decreases files.len(),
{
    let start = initial(opts, true);
    if files.len() == 0 {
        assert(separated(entries(opts, files)) =~= Seq::empty());
    } else {
        let front = files.drop_last();
        let file = files.last();
        assert forall|i: int| 0 <= i < front.len() implies vstd::utf8::valid_utf8(
            (#[trigger] front[i]).bytes,
        ) by {
            assert(front[i] == files[i]);
        }
        assert(vstd::utf8::valid_utf8(files[files.len() - 1].bytes));
        law_separator_between_entries(opts, front);
        law_indices_count_printed_files(opts, true, front);
        lemma_all_text(front);
        let state = start.after_all(front);
        let done = separated(entries(opts, front));
        assert(separated(entries(opts, files)) =~= done.push(state.output(file)));
        done.lemma_flatten_push(state.output(file));
    }
}

/// A blank line in front of every item but the first.
pub open spec fn separated(items: Seq<Seq<char>>) -> Seq<Seq<char>> {
    Seq::new(
        items.len(),
        |i: int|
            if i == 0 {
                items[i]
            } else {
                seq!['\n'] + items[i]
            },
    )
}

proof fn lemma_all_text(files: Seq<SourceFile>)
    requires
        forall|i: int|
            0 <= i < files.len() ==> vstd::utf8::valid_utf8((#[trigger] files[i]).bytes),
    ensures
        text_files(files) == files,
    decreases files.len(),
{
    reveal(Seq::filter);
    if files.len() > 0 {
        let front = files.drop_last();
        assert forall|i: int| 0 <= i < front.len() implies vstd::utf8::valid_utf8(
            (#[trigger] front[i]).bytes,
        ) by {
            assert(front[i] == files[i]);
        }
        lemma_all_text(front);
        assert(vstd::utf8::valid_utf8(files[files.len() - 1].bytes));
        assert(front.push(files.last()) =~= files);
    }
}

/// A file that is not UTF-8 is skipped: none of its bytes reach the output,
/// which at most gains the blank line in front of a next file, and the run goes
/// on in the same state.
pub proof fn law_binary_files_are_skipped(state: SessionView, file: SourceFile)
    requires
        !vstd::utf8::valid_utf8(file.bytes),
    ensures
        state.after(file) == state,
        state.output(file) == state.lead(),
        state.lead().len() <= 1,
        state.opts.format != OutputFormat::Plain ==> state.output(file).len() == 0,
        !state.separator ==> state.output(file).len() == 0,
{
}

/// What the next file adds to the output, in characters. In plain output, with
/// line numbers or without, one line feed follows every printed file, so that
/// the last line of its content has exactly one empty line behind it; and one
/// stands in front of a file where separator lines are asked for and a file has
/// been printed. In the other formats there is nothing around a printed file.
pub proof fn law_blank_lines_around_a_file(state: SessionView, file: SourceFile)
    ensures
        ({
            let plain = state.opts.format == OutputFormat::Plain;
            let shown = render::document(
                state.opts,
                file.rel,
                render::fence_language(file.rel),
                vstd::utf8::decode_utf8(file.bytes),
                state.doc_index,
            );
            let front = if plain && state.separator && state.doc_index != 1 {
                seq!['\n']
            } else {
                Seq::empty()
            };
            if !vstd::utf8::valid_utf8(file.bytes) {
                state.output(file) == front
            } else if plain {
                &&& state.output(file) == front + shown + seq!['\n']
                &&& shown.len() > 0 && shown.last() == '\n'
            } else {
                state.output(file) == shown
            }
        }),
{
    render::law_document_ends_line(
        state.opts,
        file.rel,
        render::fence_language(file.rel),
        vstd::utf8::decode_utf8(file.bytes),
        state.doc_index,
    );
    let shown = render::document(
        state.opts,
        file.rel,
        render::fence_language(file.rel),
        vstd::utf8::decode_utf8(file.bytes),
        state.doc_index,
    );
    if vstd::utf8::valid_utf8(file.bytes) {
        if state.opts.format == OutputFormat::Plain {
            assert(state.output(file) =~= state.lead() + shown + seq!['\n']);
        } else {
            assert(state.output(file) =~= shown);
        }
    }
}

/// A run goes file by file: it starts at index one with nothing printed; each
/// file adds its output in the state that the files before it left; and a file
/// takes an index if it is text, and changes nothing else.
pub proof fn law_run_goes_file_by_file(
    opts: render::OptionsView,
    separator: bool,
    state: SessionView,
    files: Seq<SourceFile>,
    file: SourceFile,
)
    ensures
        initial(opts, separator).opts == opts,
        initial(opts, separator).separator == separator,
        initial(opts, separator).doc_index == 1,
        state.output_all(Seq::empty()).len() == 0,
        state.after_all(Seq::empty()) == state,
        state.output_all(files.push(file)) == state.output_all(files) + state.after_all(
            files,
        ).output(file),
        state.after_all(files.push(file)) == state.after_all(files).after(file),
        state.after(file).opts == state.opts,
        state.after(file).separator == state.separator,
        vstd::utf8::valid_utf8(file.bytes) ==> state.after(file).doc_index == state.doc_index + 1,
        !vstd::utf8::valid_utf8(file.bytes) ==> state.after(file).doc_index == state.doc_index,
{
    assert(files.push(file).drop_last() =~= files);
    assert(files.push(file).last() == file);
}

/// The wrapper around a run: cxml has the tags on lines of their own, and the
/// other formats have nothing.
pub proof fn law_wrapper(format: OutputFormat)
    ensures
        format == OutputFormat::Cxml ==> opening(format) == "<documents>"@ + seq!['\n'],
        format == OutputFormat::Cxml ==> closing(format) == "</documents>"@ + seq!['\n'],
        format != OutputFormat::Cxml ==> opening(format).len() == 0 && closing(format).len() == 0,
{
    if format == OutputFormat::Cxml {
        assert(opening(format) =~= "<documents>"@ + seq!['\n']);
        assert(closing(format) =~= "</documents>"@ + seq!['\n']);
    }
}

} // verus!
