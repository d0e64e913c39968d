//! Output of snapshots to a file or to standard output.

use vstd::prelude::*;
use vstd::string::*;

verus! {

/// One operation on the output.
#[derive(Debug)]
pub enum OutputOp<T> {
    /// Write this text to the file.
    Write(T),
    /// Flush the file.
    Flush,
    /// Print this line on standard output.
    Print(T),
}

impl View for OutputOp<String> {
    type V = OutputOp<Seq<char>>;

    open spec fn view(&self) -> OutputOp<Seq<char>> {
        match self {
            OutputOp::Write(text) => OutputOp::Write(text@),
            OutputOp::Flush => OutputOp::Flush,
            OutputOp::Print(text) => OutputOp::Print(text@),
        }
    }
}

/// The views of a list of operations.
pub open spec fn ops(list: Seq<OutputOp<String>>) -> Seq<OutputOp<Seq<char>>> {
    list.map_values(|o: OutputOp<String>| o@)
}

/// A writer of snapshots; `F` is the buffered file.
pub enum OutputWriter<F> {
    /// Rows go to a file.
    Csv(F),
    /// Rows go to standard output.
    Stdout,
}

/// The directory to create before the file is: the parent of its path, unless that is empty.
pub fn directory_to_create(parent: Option<String>) -> (r: Option<String>)
    ensures
        r == (match parent {
            Some(path) => if path@.len() == 0 {
                None
            } else {
                Some(path)
            },
            None => None,
        }),
{
    match parent {
        Some(path) => if path.as_str().is_empty() {
            None
        } else {
            Some(path)
        },
        None => None,
    }
}

impl<F> OutputWriter<F> {
    /// A writer to the given file, and what it writes first: the header line.
    pub fn new_csv(file: F, header: String) -> (r: (OutputWriter<F>, Vec<OutputOp<String>>))
        ensures
            r.0 == OutputWriter::Csv(file),
            ops(r.1@) == seq![OutputOp::Write(header@), OutputOp::Write("\n"@)],
    {
        let mut list: Vec<OutputOp<String>> = Vec::new();
        list.push(OutputOp::Write(header));
        list.push(OutputOp::Write("\n".to_owned()));
        assert(ops(list@) =~= seq![OutputOp::Write(header@), OutputOp::Write("\n"@)]);
        (OutputWriter::Csv(file), list)
    }

    /// A writer to standard output.
    pub fn new_stdout() -> (r: OutputWriter<F>)
        ensures
            r is Stdout,
    {
        OutputWriter::Stdout
    }

    /// What writes a snapshot with the given row. A file is flushed after each row, so that
    /// it can be followed while the run goes on.
    pub fn write_snapshot(&self, row: String) -> (r: Vec<OutputOp<String>>)
        ensures
            ops(r@) == (match self {
                OutputWriter::Csv(_) => seq![
                    OutputOp::Write(row@),
                    OutputOp::Write("\n"@),
                    OutputOp::Flush,
                ],
                OutputWriter::Stdout => seq![OutputOp::Print(row@)],
            }),
    {
        let mut list: Vec<OutputOp<String>> = Vec::new();
        match self {
            OutputWriter::Csv(_) => {
                list.push(OutputOp::Write(row));
                list.push(OutputOp::Write("\n".to_owned()));
                list.push(OutputOp::Flush);
                assert(ops(list@) =~= seq![
                    OutputOp::Write(row@),
                    OutputOp::Write("\n"@),
                    OutputOp::Flush,
                ]);
            },
            OutputWriter::Stdout => {
                list.push(OutputOp::Print(row));
                assert(ops(list@) =~= seq![OutputOp::Print(row@)]);
            },
        }
        list
    }

    /// What flushes the writer.
    pub fn flush(&self) -> (r: Vec<OutputOp<String>>)
        ensures
            ops(r@) == (match self {
                OutputWriter::Csv(_) => seq![OutputOp::<Seq<char>>::Flush],
                OutputWriter::Stdout => seq![],
            }),
    {
        let mut list: Vec<OutputOp<String>> = Vec::new();
        match self {
            OutputWriter::Csv(_) => {
                list.push(OutputOp::Flush);
                assert(ops(list@) =~= seq![OutputOp::<Seq<char>>::Flush]);
            },
            OutputWriter::Stdout => {
                assert(ops(list@) =~= seq![]);
            },
        }
        list
    }
}

/// The directory to create is the parent as it is given, unless that is empty.
pub proof fn law_directory(parent: Option<String>, r: Option<String>)
    requires
        call_ensures(directory_to_create, (parent,), r),
    ensures
        r is Some <==> parent is Some && parent->0@.len() > 0,
        r is Some ==> r == parent,
{
}

/// A file gets the header line first, and then for every snapshot its row as a line of its own
/// and a flush; nothing is printed.
pub proof fn law_file_output<F>(
    file: F,
    header: String,
    row: String,
    opened: (OutputWriter<F>, Vec<OutputOp<String>>),
    written: Vec<OutputOp<String>>,
    flushed: Vec<OutputOp<String>>,
)
    requires
        call_ensures(OutputWriter::<F>::new_csv, (file, header), opened),
        call_ensures(OutputWriter::<F>::write_snapshot, (&opened.0, row), written),
        call_ensures(OutputWriter::<F>::flush, (&opened.0,), flushed),
    ensures
        opened.0 == OutputWriter::Csv(file),
        opened.1@.len() == 2,
        opened.1@[0] matches OutputOp::Write(text) && text@ == header@,
        opened.1@[1] matches OutputOp::Write(text) && text@ == seq!['\n'],
        written@.len() == 3,
        written@[0] matches OutputOp::Write(text) && text@ == row@,
        written@[1] matches OutputOp::Write(text) && text@ == seq!['\n'],
        written@[2] is Flush,
        flushed@.len() == 1,
        flushed@[0] is Flush,
{
    reveal_strlit("\n");
    assert("\n"@ =~= seq!['\n']);
    lemma_ops(opened.1@);
    lemma_ops(written@);
    lemma_ops(flushed@);
}

/// On standard output every snapshot is its row, printed once; there is nothing to flush.
pub proof fn law_stdout_output<F>(
    row: String,
    writer: OutputWriter<F>,
    written: Vec<OutputOp<String>>,
    flushed: Vec<OutputOp<String>>,
)
    requires
        call_ensures(OutputWriter::<F>::new_stdout, (), writer),
        call_ensures(OutputWriter::<F>::write_snapshot, (&writer, row), written),
        call_ensures(OutputWriter::<F>::flush, (&writer,), flushed),
    ensures
        writer is Stdout,
        written@.len() == 1,
        written@[0] matches OutputOp::Print(text) && text@ == row@,
        flushed@.len() == 0,
{
    lemma_ops(written@);
    lemma_ops(flushed@);
}

proof fn lemma_ops(list: Seq<OutputOp<String>>)
    ensures
        ops(list).len() == list.len(),
        forall|k: int|
            #![trigger list[k]]
            #![trigger ops(list)[k]]
            0 <= k < list.len() ==> ops(list)[k] == list[k]@,
{
}

} // verus!
