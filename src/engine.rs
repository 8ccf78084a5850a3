//! The bounded search: which lines of which files become match records, how
//! they are numbered and rendered, and when the walk over files stops.
//!
//! A search is modelled over the files' lines in the order the walk visits
//! them: `Seq<Seq<Seq<char>>>`, one sequence of lines per file.
use vstd::prelude::*;
use vstd::string::StringExecFns;
use crate::text::{contains, contains_str, decimal, decimal_string};

verus! {

/// The most records that one file may contribute to a search.
pub const PER_FILE_CAP: usize = 10;

/// The most records that one search returns.
pub const GLOBAL_CAP: usize = 10;

/// Appended once when a search reached its cap.
pub const TRUNCATION_NOTICE: &'static str = "Hanya 10 hasil yang di akan ditampilkan untuk sekarang, jika ingin lebih silahkan ikuti link.";

/// The only entry of a search that found nothing.
pub const NO_RESULTS: &'static str = "Tidak ada data yang ditemukan.";

/// The text between a record's number and its line.
pub const RECORD_INFIX: &'static str = "] Found data: ";

/// The text before a record's number.
pub const RECORD_PREFIX: &'static str = "[";

/// The views of a sequence of strings.
pub open spec fn views(v: Seq<String>) -> Seq<Seq<char>> {
    v.map_values(|s: String| s@)
}

/// At most the first `n` elements of `s`.
pub open spec fn cap<A>(s: Seq<A>, n: nat) -> Seq<A> {
    if s.len() <= n {
        s
    } else {
        s.take(n as int)
    }
}

/// The lines of one file that hold `q`, in file order.
pub open spec fn line_hits(q: Seq<char>, lines: Seq<Seq<char>>) -> Seq<Seq<char>>
    decreases lines.len(),
{
    if lines.len() == 0 {
        seq![]
    } else {
        let h = line_hits(q, lines.drop_last());
        if contains(lines.last(), q) {
            h.push(lines.last())
        } else {
            h
        }
    }
}

/// What one file contributes: its first matching lines, at most `PER_FILE_CAP`.
pub open spec fn file_hits(q: Seq<char>, lines: Seq<Seq<char>>) -> Seq<Seq<char>> {
    cap(line_hits(q, lines), PER_FILE_CAP as nat)
}

/// The contributions of all files, in the order the files are visited.
pub open spec fn tree_hits(q: Seq<char>, files: Seq<Seq<Seq<char>>>) -> Seq<Seq<char>>
    decreases files.len(),
{
    if files.len() == 0 {
        seq![]
    } else {
        tree_hits(q, files.drop_last()) + file_hits(q, files.last())
    }
}

/// The rendering of the match record numbered `n` for `line`.
pub open spec fn record(n: nat, line: Seq<char>) -> Seq<char> {
    RECORD_PREFIX@ + decimal(n) + RECORD_INFIX@ + line
}

/// The first `GLOBAL_CAP` hits rendered as records numbered from 1.
pub open spec fn records(hits: Seq<Seq<char>>) -> Seq<Seq<char>> {
    let k = cap(hits, GLOBAL_CAP as nat);
    Seq::new(k.len(), |i: int| record((i + 1) as nat, k[i]))
}

/// The result batch for a list of hits: the records, then the truncation
/// notice when the cap was reached, or the lone no-results entry when there
/// was no hit.
pub open spec fn batch(hits: Seq<Seq<char>>) -> Seq<Seq<char>> {
    if hits.len() >= GLOBAL_CAP {
        records(hits).push(TRUNCATION_NOTICE@)
    } else if hits.len() == 0 {
        seq![NO_RESULTS@]
    } else {
        records(hits)
    }
}

/// What a search for `q` returns over `files`.
pub open spec fn search_output(q: Seq<char>, files: Seq<Seq<Seq<char>>>) -> Seq<Seq<char>> {
    batch(tree_hits(q, files))
}

/// Renders the match record numbered `n` for `line`.
pub fn record_string(n: u64, line: &str) -> (r: String)
    ensures
        r@ == record(n as nat, line@),
{
    let mut s = String::from_str(RECORD_PREFIX);
    let d = decimal_string(n);
    s.append(d.as_str());
    s.append(RECORD_INFIX);
    s.append(line);
    s
}

/// What the caller does with the file it is reading, after handing one line over.
#[derive(Debug, Clone, Copy, PartialEq, Eq, Structural)]
pub enum LineAction {
    /// Read the next line of this file and hand it over.
    ReadNext,
    /// This file has given all it may give: close it and call `end_file`.
    CloseFile,
}

/// What the caller does after a file was closed.
#[derive(Debug, Clone, Copy, PartialEq, Eq, Structural)]
pub enum FileAction {
    /// Open the next file of the walk, if there is one.
    OpenNext,
    /// The search is capped: open no further file and call `finish`.
    Stop,
}

/// One search in progress, fed line by line and file by file by a caller that
/// walks the tree and reads the files.
///
/// Its model is the query and the lines handed over so far, one sequence per
/// file; the last file is the one being read (empty between files).
pub struct Search {
    query: String,
    /// The first `GLOBAL_CAP` hits so far.
    kept: Vec<String>,
    /// The hits of the file being read, up to `PER_FILE_CAP`.
    in_file: usize,
    files: Ghost<Seq<Seq<Seq<char>>>>,
}

impl Search {
    /// The query searched for.
    pub closed spec fn query(&self) -> Seq<char> {
        self.query@
    }

    /// The lines handed over so far, one sequence per file.
    pub closed spec fn files(&self) -> Seq<Seq<Seq<char>>> {
        self.files@
    }

    /// The state is consistent with its model.
    pub closed spec fn wf(&self) -> bool {
        &&& self.files@.len() >= 1
        &&& self.in_file == cap(line_hits(self.query@, self.files@.last()), PER_FILE_CAP as nat).len()
        &&& views(self.kept@) == cap(tree_hits(self.query@, self.files@), GLOBAL_CAP as nat)
    }

    /// Starts a search for `query`; no line has been handed over.
    pub fn new(query: &str) -> (s: Search)
        ensures
            s.wf(),
            s.query() == query@,
            s.files() == seq![Seq::<Seq<char>>::empty()],
    {
        let ghost start = seq![Seq::<Seq<char>>::empty()];
        let s = Search {
            query: String::from_str(query),
            kept: Vec::new(),
            in_file: 0,
            files: Ghost(start),
        };
        proof {
            let f = s.files@;
            assert(f.drop_last() =~= Seq::<Seq<Seq<char>>>::empty());
            assert(f.last() =~= Seq::<Seq<char>>::empty());
            assert(line_hits(s.query@, f.last()) =~= Seq::<Seq<char>>::empty());
            assert(tree_hits(s.query@, f.drop_last()) =~= Seq::<Seq<char>>::empty());
            assert(tree_hits(s.query@, f) =~= Seq::<Seq<char>>::empty());
            assert(views(s.kept@) =~= Seq::<Seq<char>>::empty());
        }
        s
    }

    /// Hands over the next line of the file being read. Once the file has
    /// given `PER_FILE_CAP` hits, further lines of it change no result, and the
    /// answer is `CloseFile`.
    pub fn feed_line(&mut self, line: &str) -> (r: LineAction)
        requires
            old(self).wf(),
        ensures
            final(self).wf(),
            final(self).query() == old(self).query(),
            final(self).files() == old(self).files().drop_last().push(
                old(self).files().last().push(line@),
            ),
            r == LineAction::CloseFile <==> line_hits(final(self).query(), final(self).files().last()).len()
                >= PER_FILE_CAP,
    {
        let ghost q = self.query@;
        let ghost f = self.files@;
        let ghost cur = f.last();
        let ghost cur2 = cur.push(line@);
        let ghost f2 = f.drop_last().push(cur2);
        proof {
            assert(views(self.kept@).len() == self.kept@.len());
            assert(cur2.drop_last() =~= cur);
            assert(f2.drop_last() =~= f.drop_last());
            assert(f2.last() == cur2);
        }
        if self.in_file < PER_FILE_CAP && contains_str(line, self.query.as_str()) {
            proof {
                assert(line_hits(q, cur).len() < PER_FILE_CAP);
                assert(line_hits(q, cur2) == line_hits(q, cur).push(line@));
                assert(file_hits(q, cur2) == file_hits(q, cur).push(line@));
                assert(tree_hits(q, f2) =~= tree_hits(q, f).push(line@));
            }
            if self.kept.len() < GLOBAL_CAP {
                self.kept.push(String::from_str(line));
                proof {
                    assert(views(self.kept@) =~= views(old(self).kept@).push(line@));
                }
            } else {
                proof {
                    assert(tree_hits(q, f2).take(GLOBAL_CAP as int) =~= tree_hits(q, f).take(
                        GLOBAL_CAP as int,
                    ));
                }
            }
            self.in_file = self.in_file + 1;
            proof {
                assert(views(self.kept@) == cap(tree_hits(q, f2), GLOBAL_CAP as nat));
            }
        } else {
            proof {
                if self.in_file < PER_FILE_CAP {
                    assert(line_hits(q, cur2) == line_hits(q, cur));
                } else {
                    let h = line_hits(q, cur);
                    assert(cap(line_hits(q, cur2), PER_FILE_CAP as nat) =~= cap(h, PER_FILE_CAP as nat));
                }
                assert(tree_hits(q, f2) =~= tree_hits(q, f));
            }
        }
        self.files = Ghost(f2);
        if self.in_file == PER_FILE_CAP {
            LineAction::CloseFile
        } else {
            LineAction::ReadNext
        }
    }

    /// Closes the file being read. The answer is `Stop` exactly when the hits
    /// so far have reached `GLOBAL_CAP`: no file after this one is needed.
    pub fn end_file(&mut self) -> (r: FileAction)
        requires
            old(self).wf(),
        ensures
            final(self).wf(),
            final(self).query() == old(self).query(),
            final(self).files() == old(self).files().push(seq![]),
            tree_hits(final(self).query(), final(self).files()) == tree_hits(
                old(self).query(),
                old(self).files(),
            ),
            r == FileAction::Stop <==> tree_hits(old(self).query(), old(self).files()).len()
                >= GLOBAL_CAP,
    {
        let ghost q = self.query@;
        let ghost f = self.files@;
        let ghost f2 = f.push(seq![]);
        proof {
            assert(views(self.kept@).len() == self.kept@.len());
            assert(f2.drop_last() =~= f);
            assert(line_hits(q, f2.last()) =~= Seq::<Seq<char>>::empty());
            assert(tree_hits(q, f2) =~= tree_hits(q, f));
        }
        self.files = Ghost(f2);
        self.in_file = 0;
        if self.kept.len() == GLOBAL_CAP {
            FileAction::Stop
        } else {
            FileAction::OpenNext
        }
    }

    /// The result batch of the search over the lines handed over.
    pub fn finish(self) -> (r: Vec<String>)
        requires
            self.wf(),
        ensures
            views(r@) == search_output(self.query(), self.files()),
    {
        let ghost t = tree_hits(self.query@, self.files@);
        let mut out: Vec<String> = Vec::new();
        let mut i: usize = 0;
        while i < self.kept.len()
            invariant
                self.wf(),
                t == tree_hits(self.query@, self.files@),
                i <= self.kept@.len(),
                views(out@) == records(t).take(i as int),
            decreases self.kept@.len() - i,
        {
            let rec = record_string((i + 1) as u64, self.kept[i].as_str());
            proof {
                assert(views(self.kept@)[i as int] == self.kept@[i as int]@);
                assert(views(self.kept@).len() == self.kept@.len());
                assert(records(t)[i as int] == record((i + 1) as nat, self.kept@[i as int]@));
            }
            let ghost before = out@;
            out.push(rec);
            proof {
                assert(views(out@) =~= views(before).push(rec@));
                assert(views(out@) =~= records(t).take(i + 1));
            }
            i = i + 1;
        }
        proof {
            assert(views(self.kept@).len() == self.kept@.len());
            assert(records(t).take(i as int) =~= records(t));
        }
        if self.kept.len() == GLOBAL_CAP {
            out.push(String::from_str(TRUNCATION_NOTICE));
            proof {
                assert(views(out@) =~= records(t).push(TRUNCATION_NOTICE@));
            }
        } else if self.kept.len() == 0 {
            out.push(String::from_str(NO_RESULTS));
            proof {
                assert(views(out@) =~= seq![NO_RESULTS@]);
            }
        }
        out
    }
}

/// The lines of each file, as character sequences.
pub open spec fn tree_view(files: Seq<Vec<String>>) -> Seq<Seq<Seq<char>>> {
    files.map_values(|f: Vec<String>| views(f@))
}

/// Searches for `query` in files whose lines are already at hand, given in the
/// order of the walk. Lines past a file's cap and files past the search's cap
/// are not looked at.
pub fn search_files(query: &str, files: &Vec<Vec<String>>) -> (r: Vec<String>)
    ensures
        views(r@) == search_output(query@, tree_view(files@)),
{
    let ghost q = query@;
    let ghost tf = tree_view(files@);
    let mut s = Search::new(query);
    proof {
        assert(tf.take(0) =~= Seq::<Seq<Seq<char>>>::empty());
        assert(s.files().drop_last() =~= tf.take(0));
    }
    let mut i: usize = 0;
    let mut stopped = false;
    while i < files.len() && !stopped
        invariant
            s.wf(),
            s.query() == q,
            tf == tree_view(files@),
            i <= files@.len(),
            s.files().last() == Seq::<Seq<char>>::empty(),
            tree_hits(q, s.files()) == tree_hits(q, tf.take(i as int)),
            stopped ==> tree_hits(q, tf.take(i as int)).len() >= GLOBAL_CAP,
        decreases files@.len() - i,
    {
        let lines = &files[i];
        let ghost before = s.files().drop_last();
        let ghost file = tf[i as int];
        proof {
            assert(line_hits(q, s.files().last()) =~= Seq::<Seq<char>>::empty());
            assert(tree_hits(q, s.files()) =~= tree_hits(q, before));
            assert(file.take(0) =~= Seq::<Seq<char>>::empty());
        }
        let mut j: usize = 0;
        let mut closed = false;
        while j < lines.len() && !closed
            invariant
                s.wf(),
                s.query() == q,
                tf == tree_view(files@),
                i < files@.len(),
                lines == files@[i as int],
                file == tf[i as int],
                file == views(lines@),
                j <= lines@.len(),
                s.files().drop_last() == before,
                tree_hits(q, before) == tree_hits(q, tf.take(i as int)),
                s.files().last() == file.take(j as int),
                closed ==> line_hits(q, file.take(j as int)).len() >= PER_FILE_CAP,
            decreases lines@.len() - j,
        {
            let a = s.feed_line(lines[j].as_str());
            proof {
                assert(file.take(j + 1) =~= file.take(j as int).push(lines@[j as int]@));
            }
            j = j + 1;
            if a == LineAction::CloseFile {
                closed = true;
            }
        }
        proof {
            if closed {
                crate::laws::lemma_capped_file(q, file, j as int);
            } else {
                assert(file.take(j as int) =~= file);
            }
            assert(tf.take(i + 1).drop_last() =~= tf.take(i as int));
            assert(s.files().drop_last() == before);
            assert(tf.take(i + 1).last() == file);
            assert(file_hits(q, file.take(j as int)) == file_hits(q, file));
            assert(tree_hits(q, s.files()) == tree_hits(q, before) + file_hits(q, file));
            assert(tree_hits(q, tf.take(i + 1)) == tree_hits(q, tf.take(i as int)) + file_hits(q, file));
        }
        let act = s.end_file();
        i = i + 1;
        if act == FileAction::Stop {
            stopped = true;
        }
    }
    proof {
        if stopped {
            crate::laws::lemma_capped_walk(q, tf, i as int);
        } else {
            assert(tf.take(i as int) =~= tf);
        }
    }
    s.finish()
}

} // verus!
