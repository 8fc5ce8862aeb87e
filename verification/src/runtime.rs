//! The two operations on the local container runtime: which instances run
//! under a name, and starting one from an image.
//!
//! The caller runs the commands. This module says what to run and reads what
//! the runtime printed.

use vstd::prelude::*;
use vstd::string::*;
use crate::text::{joined, owned, same_text, texts};

verus! {

/// What a query for the running instances brought.
#[derive(Debug)]
pub enum Observation {
    /// The runtime could not be asked, or the query failed.
    Unavailable,
    /// The names of the running instances that the runtime listed.
    Names(Vec<String>),
}

/// What came of starting an instance.
#[derive(Clone, Copy, PartialEq, Eq, Structural, Debug)]
pub enum LaunchResult {
    /// The runtime could not be invoked at all.
    NotStarted,
    /// The launch command ran and ended, with success or without.
    Exited { success: bool },
}

impl View for Observation {
    type V = Option<Seq<Seq<char>>>;

    /// The names listed; none where the runtime could not be asked.
    open spec fn view(&self) -> Option<Seq<Seq<char>>> {
        match self {
            Observation::Names(names) => Some(texts(names@)),
            Observation::Unavailable => None,
        }
    }
}

/// Whether a listing holds an instance whose name is exactly `name`. A
/// listing that could not be had holds none.
pub open spec fn lists(listing: Option<Seq<Seq<char>>>, name: Seq<char>) -> bool {
    match listing {
        Some(names) => names.contains(name),
        None => false,
    }
}

impl Observation {
    /// Whether the observation lists an instance whose name is exactly `name`.
    pub open spec fn reports(&self, name: Seq<char>) -> bool {
        lists(self@, name)
    }
}

/// Whether an instance named `name` runs, as far as the observation tells.
/// Where the runtime could not be asked the answer is no, so that the
/// component is started rather than left down.
pub fn is_running(name: &str, observation: &Observation) -> (r: bool)
    ensures
        r == observation.reports(name@),
{
    match observation {
        Observation::Unavailable => false,
        Observation::Names(names) => {
            let mut i: usize = 0;
            while i < names.len()
                invariant
                    i <= names.len(),
                    observation.reports(name@) == texts(names@).contains(name@),
                    forall|j: int| 0 <= j < i ==> names@[j]@ != name@,
                decreases names.len() - i,
            {
                if same_text(names[i].as_str(), name) {
                    assert(texts(names@)[i as int] == name@);
                    assert(texts(names@).contains(name@));
                    return true;
                }
                i += 1;
            }
            assert forall|j: int| 0 <= j < texts(names@).len() implies texts(names@)[j]
                != name@ by {}
            false
        },
    }
}

/// The names read so far and the line being read, after the characters of
/// `output`: a newline ends the line, which counts as a name unless it is empty.
pub open spec fn scan(output: Seq<char>) -> (Seq<Seq<char>>, Seq<char>)
    decreases output.len(),
{
    if output.len() == 0 {
        (Seq::empty(), Seq::empty())
    } else {
        let (names, line) = scan(output.drop_last());
        if output.last() == '\n' {
            (
                if line.len() > 0 {
                    names.push(line)
                } else {
                    names
                },
                Seq::empty(),
            )
        } else {
            (names, line.push(output.last()))
        }
    }
}

/// The names that the runtime printed, one on a line: the lines of `output`
/// that are not empty, in their order.
pub open spec fn listed_names(output: Seq<char>) -> Seq<Seq<char>> {
    let (names, line) = scan(output);
    if line.len() > 0 {
        names.push(line)
    } else {
        names
    }
}

/// Whether a text can stand on a line as a name: it is not empty and holds
/// no newline.
pub open spec fn is_line(text: Seq<char>) -> bool {
    text.len() > 0 && !text.contains('\n')
}

/// Every name that is listed is a line, and so is what is being read of the
/// last one.
pub proof fn lemma_listed_names_are_lines(output: Seq<char>)
    ensures
        forall|i: int|
            0 <= i < listed_names(output).len() ==> is_line(#[trigger] listed_names(output)[i]),
        forall|i: int| 0 <= i < scan(output).0.len() ==> is_line(#[trigger] scan(output).0[i]),
        !scan(output).1.contains('\n'),
    decreases output.len(),
{
    if output.len() > 0 {
        lemma_listed_names_are_lines(output.drop_last());
        let (names, line) = scan(output.drop_last());
        if output.last() != '\n' {
            let longer = line.push(output.last());
            assert forall|k: int| 0 <= k < longer.len() implies longer[k] != '\n' by {
                if k < line.len() {
                    assert(longer[k] == line[k]);
                }
            }
        }
    }
}

/// A name on a line of its own is the one name listed.
pub proof fn lemma_single_line(name: Seq<char>)
    requires
        name.len() > 0,
        !name.contains('\n'),
    ensures
        listed_names(name.push('\n')) == seq![name],
        listed_names(name) == seq![name],
{
    lemma_scan_line(name);
    assert(name.push('\n').drop_last() =~= name);
    assert(Seq::<Seq<char>>::empty().push(name) =~= seq![name]);
}

/// A text without a newline is one unfinished line.
proof fn lemma_scan_line(line: Seq<char>)
    requires
        !line.contains('\n'),
    ensures
        scan(line) == (Seq::<Seq<char>>::empty(), line),
    decreases line.len(),
{
    if line.len() > 0 {
        let shorter = line.drop_last();
        assert forall|i: int| 0 <= i < shorter.len() implies shorter[i] != '\n' by {
            assert(shorter[i] == line[i]);
        }
        lemma_scan_line(shorter);
        assert(line.last() == line[line.len() - 1]);
        assert(shorter.push(line.last()) =~= line);
    } else {
        assert(line =~= Seq::empty());
    }
}

/// The names of the instances that the runtime printed, one on a line.
pub fn instance_names(output: &str) -> (r: Vec<String>)
    ensures
        texts(r@) == listed_names(output@),
{
    let n = output.unicode_len();
    let mut names: Vec<String> = Vec::new();
    let mut start: usize = 0;
    let mut i: usize = 0;
    assert(output@.take(0) =~= Seq::<char>::empty());
    assert(output@.subrange(0, 0) =~= Seq::<char>::empty());
    assert(texts(names@) =~= Seq::<Seq<char>>::empty());
    while i < n
        invariant
            start <= i <= n,
            n == output@.len(),
            scan(output@.take(i as int)) == (texts(names@), output@.subrange(
                start as int,
                i as int,
            )),
        decreases n - i,
    {
        let c = output.get_char(i);
        proof {
            let longer = output@.take(i + 1);
            assert(longer.drop_last() =~= output@.take(i as int));
            assert(longer.last() == c);
        }
        if c == '\n' {
            if i > start {
                let ghost before = names@;
                let line = owned(output.substring_char(start, i));
                names.push(line);
                assert(texts(names@) =~= texts(before).push(
                    output@.subrange(start as int, i as int),
                ));
            }
            start = i + 1;
            assert(output@.subrange(start as int, start as int) =~= Seq::<char>::empty());
        } else {
            assert(output@.subrange(start as int, i + 1) =~= output@.subrange(
                start as int,
                i as int,
            ).push(c));
        }
        i += 1;
    }
    assert(output@.take(i as int) =~= output@);
    if i > start {
        let ghost before = names@;
        let line = owned(output.substring_char(start, i));
        names.push(line);
        assert(texts(names@) =~= texts(before).push(output@.subrange(start as int, i as int)));
    }
    names
}

/// The program that stands for the container runtime.
pub fn runtime_program() -> (r: String)
    ensures
        r@ == "docker"@,
{
    owned("docker")
}

/// The arguments of the query for the running instances whose name matches `name`.
pub open spec fn query_arguments_of(name: Seq<char>) -> Seq<Seq<char>> {
    seq!["ps"@, "--filter=name="@ + name, "--format"@, "{{.Names}}"@]
}

/// The arguments of the launch of a detached instance named `name` from `image`.
pub open spec fn launch_arguments_of(name: Seq<char>, image: Seq<char>) -> Seq<Seq<char>> {
    seq!["run"@, "-d"@, "--name"@, name, image]
}

/// The arguments with which the runtime lists, one name on a line, the
/// running instances whose name matches `name`.
pub fn query_arguments(name: &str) -> (r: Vec<String>)
    ensures
        texts(r@) == query_arguments_of(name@),
{
    let mut arguments: Vec<String> = Vec::new();
    arguments.push(owned("ps"));
    arguments.push(joined("--filter=name=", name));
    arguments.push(owned("--format"));
    arguments.push(owned("{{.Names}}"));
    assert(texts(arguments@) =~= query_arguments_of(name@));
    arguments
}

/// The arguments with which the runtime starts a detached instance named
/// `name` from `image`.
pub fn launch_arguments(name: &str, image: &str) -> (r: Vec<String>)
    ensures
        texts(r@) == launch_arguments_of(name@, image@),
{
    let mut arguments: Vec<String> = Vec::new();
    arguments.push(owned("run"));
    arguments.push(owned("-d"));
    arguments.push(owned("--name"));
    arguments.push(owned(name));
    arguments.push(owned(image));
    assert(texts(arguments@) =~= launch_arguments_of(name@, image@));
    arguments
}

} // verus!
