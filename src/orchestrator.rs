use vstd::prelude::*;
use crate::providers::{resolution, resolve};
use crate::syntax::{check_open_link, derived_path, get_open_link, get_path, is_open_link, open_link_target};
use crate::text::{strings_view, trimmed};

verus! {

/// The settings of one run over a list.
#[derive(Debug, Clone)]
pub struct RunOptions {
    /// Hand the download collaborator the flag that turns off its ignore rules.
    pub no_ignore: bool,
    /// Hand the download collaborator the flag that keeps comments.
    pub no_comments: bool,
    /// Never open a link in the browser.
    pub no_open_link: bool,
    /// The e-reader address that each downloaded entry is sent to, if any.
    pub kindle: Option<String>,
}

/// One side effect that a list line asks for, in the order it is due.
#[derive(Debug)]
pub enum Action {
    OpenInBrowser(String),
    CreateDir(String),
    Download { url: String, dir: String, no_ignore: bool, no_comments: bool },
    Deliver { url: String, dir: String, address: String },
}

/// An action with its strings as character sequences.
pub enum ActionModel {
    OpenInBrowser(Seq<char>),
    CreateDir(Seq<char>),
    Download(Seq<char>, Seq<char>, bool, bool),
    Deliver(Seq<char>, Seq<char>, Seq<char>),
}

impl View for Action {
    type V = ActionModel;

    open spec fn view(&self) -> ActionModel {
        match self {
            Action::OpenInBrowser(u) => ActionModel::OpenInBrowser(u@),
            Action::CreateDir(d) => ActionModel::CreateDir(d@),
            Action::Download { url, dir, no_ignore, no_comments } => ActionModel::Download(
                url@,
                dir@,
                *no_ignore,
                *no_comments,
            ),
            Action::Deliver { url, dir, address } => ActionModel::Deliver(url@, dir@, address@),
        }
    }
}

pub open spec fn actions_view(v: Seq<Action>) -> Seq<ActionModel> {
    v.map_values(|a: Action| a@)
}

pub open spec fn dir_view(d: Option<String>) -> Option<Seq<char>> {
    match d {
        Some(s) => Some(s@),
        None => None,
    }
}

/// What one trimmed line does, given the directory established so far:
/// the directory afterwards and the actions due, in order. The first line
/// that is no open-link directive establishes the directory, once and for
/// the whole run, even where it names none (the empty path).
pub open spec fn step_trimmed(dir: Option<Seq<char>>, o: RunOptions, t: Seq<char>) -> (
    Option<Seq<char>>,
    Seq<ActionModel>,
) {
    if is_open_link(t) {
        if o.no_open_link {
            (dir, Seq::empty())
        } else {
            (dir, seq![ActionModel::OpenInBrowser(open_link_target(t))])
        }
    } else {
        let d = match dir {
            Some(d) => d,
            None => derived_path(t),
        };
        let created = if dir is None {
            seq![ActionModel::CreateDir(d)]
        } else {
            Seq::empty()
        };
        let url = resolution(t).0;
        let delivered = match o.kindle {
            Some(a) => seq![ActionModel::Deliver(url, d, a@)],
            None => Seq::empty(),
        };
        (Some(d), created + seq![ActionModel::Download(url, d, o.no_ignore, o.no_comments)] + delivered)
    }
}

/// What one line of the list does: the same as its trimmed text.
pub open spec fn step(dir: Option<Seq<char>>, o: RunOptions, line: Seq<char>) -> (
    Option<Seq<char>>,
    Seq<ActionModel>,
) {
    step_trimmed(dir, o, trimmed(line))
}

/// What a run over `lines` does from the directory `dir` on.
pub open spec fn run(dir: Option<Seq<char>>, o: RunOptions, lines: Seq<Seq<char>>) -> (
    Option<Seq<char>>,
    Seq<ActionModel>,
)
    decreases lines.len(),
{
    if lines.len() == 0 {
        (dir, Seq::empty())
    } else {
        let before = run(dir, o, lines.drop_last());
        let last = step(before.0, o, lines.last());
        (last.0, before.1 + last.1)
    }
}

/// The state of a run over a list: the target directory, once a content
/// line has named one, and the run's settings.
pub struct ListReader {
    pub dir: Option<String>,
    pub options: RunOptions,
}

impl ListReader {
    /// A run that has established no directory yet.
    pub fn new(options: RunOptions) -> (r: ListReader)
        ensures
            r.dir is None,
            r.options == options,
    {
        ListReader { dir: None, options }
    }

    /// Takes the next line of the list and returns the actions it asks for.
    pub fn on_line(&mut self, line: &str) -> (r: Vec<Action>)
        ensures
            final(self).options == old(self).options,
            (dir_view(final(self).dir), actions_view(r@)) == step(
                dir_view(old(self).dir),
                old(self).options,
                line@,
            ),
    {
        self.on_trimmed_line(line.trim())
    }

    /// Takes the next line of the list, already trimmed, and returns the
    /// actions it asks for.
    pub fn on_trimmed_line(&mut self, t: &str) -> (r: Vec<Action>)
        ensures
            final(self).options == old(self).options,
            (dir_view(final(self).dir), actions_view(r@)) == step_trimmed(
                dir_view(old(self).dir),
                old(self).options,
                t@,
            ),
    {
        let mut out: Vec<Action> = Vec::new();
        if check_open_link(t) {
            if !self.options.no_open_link {
                out.push(Action::OpenInBrowser(get_open_link(t)));
            }
            assert(actions_view(out@) =~= step_trimmed(dir_view(self.dir), self.options, t@).1);
            return out;
        }
        let d: String = match &self.dir {
            Some(d) => d.clone(),
            None => {
                let p = get_path(t);
                out.push(Action::CreateDir(p.clone()));
                p
            },
        };
        let entry = resolve(t);
        let url = entry.url;
        out.push(
            Action::Download {
                url: url.clone(),
                dir: d.clone(),
                no_ignore: self.options.no_ignore,
                no_comments: self.options.no_comments,
            },
        );
        match &self.options.kindle {
            Some(a) => {
                out.push(Action::Deliver { url: url, dir: d.clone(), address: a.clone() });
            },
            None => {},
        }
        assert(actions_view(out@) =~= step_trimmed(dir_view(self.dir), self.options, t@).1);
        self.dir = Some(d);
        out
    }
}

/// Runs over the lines of a list in order.
pub struct ReadList;

impl ReadList {
    /// The actions that a whole list asks for, line after line, from a run
    /// that has established no directory yet.
    pub fn read_lines(lines: &Vec<String>, options: RunOptions) -> (r: Vec<Action>)
        ensures
            actions_view(r@) == run(None, options, strings_view(lines@)).1,
    {
        let ghost o = options;
        let mut reader = ListReader::new(options);
        let mut out: Vec<Action> = Vec::new();
        let mut i: usize = 0;
        while i < lines.len()
            invariant
                i <= lines@.len(),
                reader.options == o,
                (dir_view(reader.dir), actions_view(out@)) == run(
                    None,
                    o,
                    strings_view(lines@.subrange(0, i as int)),
                ),
            decreases lines.len() - i,
        {
            let ghost prev = out@;
            let mut acts = reader.on_line(lines[i].as_str());
            out.append(&mut acts);
            proof {
                let ls = strings_view(lines@.subrange(0, i + 1));
                assert(ls.drop_last() =~= strings_view(lines@.subrange(0, i as int)));
                assert(ls.last() == lines@[i as int]@);
                assert(actions_view(out@) =~= actions_view(prev) + actions_view(out@.subrange(prev.len() as int, out@.len() as int)));
            }
            i = i + 1;
        }
        assert(lines@.subrange(0, i as int) =~= lines@);
        out
    }
}

} // verus!
