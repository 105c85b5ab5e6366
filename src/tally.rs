use vstd::prelude::*;
use crate::decimal::{decimal, push_decimal};
use crate::header::{jdk_label, lemma_label_injective, HeaderError, JavaClassVersion};
use crate::scan::views;

verus! {

/// The class files that share one major version.
#[derive(Debug)]
pub struct VersionGroup {
    pub major: u16,
    pub files: Vec<String>,
}

/// Class files grouped by the JDK release that compiled them, groups in the
/// order in which their version was first seen.
#[derive(Debug)]
pub struct VersionTally {
    pub groups: Vec<VersionGroup>,
}

/// The index of the group of `major`, or -1 when there is none.
pub open spec fn index_of_major(s: Seq<(u16, Seq<Seq<char>>)>, major: u16) -> int
    decreases s.len(),
{
    if s.len() == 0 {
        -1
    } else if s.last().0 == major {
        s.len() - 1
    } else {
        index_of_major(s.drop_last(), major)
    }
}

/// The index found is in range and holds the group of `major`; when none
/// is found, no group has that version.
pub proof fn lemma_index_of_major(s: Seq<(u16, Seq<Seq<char>>)>, major: u16)
    ensures
        -1 <= index_of_major(s, major) < s.len(),
        index_of_major(s, major) >= 0 ==> s[index_of_major(s, major)].0 == major,
        index_of_major(s, major) < 0 ==> forall|i: int| 0 <= i < s.len() ==> s[i].0 != major,
    decreases s.len(),
{
    if s.len() > 0 && s.last().0 != major {
        lemma_index_of_major(s.drop_last(), major);
        assert forall|i: int| 0 <= i < s.len() - 1 implies s[i] == s.drop_last()[i] by {}
    }
}

/// The groups after one more file of version `major`: appended to its group,
/// or in a new last group.
pub open spec fn record_spec(s: Seq<(u16, Seq<Seq<char>>)>, major: u16, file: Seq<char>) -> Seq<
    (u16, Seq<Seq<char>>),
> {
    let k = index_of_major(s, major);
    if k >= 0 {
        s.update(k, (major, s[k].1.push(file)))
    } else {
        s.push((major, seq![file]))
    }
}

/// Each major version has at most one group.
pub open spec fn distinct_majors(s: Seq<(u16, Seq<Seq<char>>)>) -> bool {
    forall|i: int, j: int| 0 <= i < j < s.len() ==> s[i].0 != s[j].0
}

/// The summary line of one group: its label and how many files it holds.
pub open spec fn summary_line(g: (u16, Seq<Seq<char>>)) -> Seq<char> {
    jdk_label(g.0) + ": "@ + decimal(g.1.len())
}

/// The text shown for an artifact whose header could not be decoded.
pub open spec fn unknown_version() -> Seq<char> {
    "unknown version"@
}

/// In a well-formed tally, more than one group means more than one distinct
/// JDK label among the recorded files, and the other way round.
pub proof fn lemma_mixed_iff_labels_differ(s: Seq<(u16, Seq<Seq<char>>)>)
    requires
        distinct_majors(s),
    ensures
        s.len() > 1 <==> exists|i: int, j: int|
            0 <= i < s.len() && 0 <= j < s.len() && jdk_label(#[trigger] s[i].0) != jdk_label(
                #[trigger] s[j].0,
            ),
{
    if s.len() > 1 {
        if jdk_label(s[0].0) == jdk_label(s[1].0) {
            lemma_label_injective(s[0].0, s[1].0);
        }
        assert(jdk_label(s[0].0) != jdk_label(s[1].0));
    }
}

impl View for VersionTally {
    type V = Seq<(u16, Seq<Seq<char>>)>;

    open spec fn view(&self) -> Seq<(u16, Seq<Seq<char>>)> {
        self.groups@.map_values(|g: VersionGroup| (g.major, views(g.files@)))
    }
}

impl VersionTally {
    /// Each major version has at most one group.
    pub open spec fn wf(&self) -> bool {
        distinct_majors(self@)
    }

    /// An empty tally.
    pub fn new() -> (r: VersionTally)
        ensures
            r.wf(),
            r@ == Seq::<(u16, Seq<Seq<char>>)>::empty(),
    {
        let r = VersionTally { groups: Vec::new() };
        assert(r@ =~= Seq::<(u16, Seq<Seq<char>>)>::empty());
        r
    }

    fn find_major(&self, major: u16) -> (r: Option<usize>)
        ensures
            r == (if index_of_major(self@, major) < 0 {
                None::<usize>
            } else {
                Some(index_of_major(self@, major) as usize)
            }),
    {
        proof {
            lemma_index_of_major(self@, major);
        }
        let mut i: usize = self.groups.len();
        assert(self@.subrange(0, i as int) =~= self@);
        while i > 0
            invariant
                i <= self.groups.len(),
                index_of_major(self@, major) == index_of_major(self@.subrange(0, i as int), major),
            decreases i,
        {
            assert(self@.subrange(0, i as int).drop_last() =~= self@.subrange(0, i - 1));
            if self.groups[i - 1].major == major {
                return Some(i - 1);
            }
            i = i - 1;
        }
        None
    }

    /// Adds a class file of the given version.
    pub fn record(&mut self, version: JavaClassVersion, file: String)
        requires
            old(self).wf(),
        ensures
            final(self).wf(),
            final(self)@ == record_spec(old(self)@, version.major, file@),
    {
        proof {
            lemma_index_of_major(self@, version.major);
        }
        let ghost s = self@;
        match self.find_major(version.major) {
            Some(k) => {
                let ghost old_groups = self.groups@;
                let mut g = self.groups.remove(k);
                assert(g == old_groups[k as int]);
                let ghost before = g.files@;
                g.files.push(file);
                assert(views(g.files@) =~= views(before).push(file@));
                self.groups.insert(k, g);
                assert(self.groups@ =~= old_groups.update(k as int, g));
                assert(s[k as int] == (old_groups[k as int].major, views(before)));
                assert(index_of_major(s, version.major) == k as int);
                assert(s[k as int].0 == version.major);
                assert(g.major == version.major);
                assert forall|j: int| 0 <= j < s.len() implies #[trigger] self@[j] == s.update(
                    k as int,
                    (version.major, s[k as int].1.push(file@)),
                )[j] by {
                    if j == k {
                        assert(self.groups@[j] == g);
                    } else {
                        assert(self.groups@[j] == old_groups[j]);
                    }
                }
                assert(self@ =~= s.update(k as int, (version.major, s[k as int].1.push(file@))));
            },
            None => {
                let mut files: Vec<String> = Vec::new();
                files.push(file);
                assert(views(files@) =~= seq![file@]);
                self.groups.push(VersionGroup { major: version.major, files });
                assert(self@ =~= s.push((version.major, seq![file@])));
            },
        }
    }

    /// Takes the outcome of decoding one class file's header. A decoded
    /// version is recorded and its label returned; a failure records nothing
    /// and yields the unknown-version text.
    pub fn record_outcome(
        &mut self,
        outcome: Result<JavaClassVersion, HeaderError>,
        file: String,
    ) -> (label: String)
        requires
            old(self).wf(),
        ensures
            final(self).wf(),
            match outcome {
                Ok(v) => label@ == jdk_label(v.major) && final(self)@ == record_spec(
                    old(self)@,
                    v.major,
                    file@,
                ),
                Err(_) => label@ == unknown_version() && final(self)@ == old(self)@,
            },
    {
        match outcome {
            Ok(v) => {
                let label = v.to_jdk_version();
                self.record(v, file);
                label
            },
            Err(_) => String::from_str("unknown version"),
        }
    }

    /// Whether more than one JDK release produced the recorded files.
    pub fn is_mixed(&self) -> (r: bool)
        ensures
            r == (self@.len() > 1),
    {
        self.groups.len() > 1
    }

    /// One line per group, in group order: the release label, a colon, and
    /// the number of files.
    pub fn summary_lines(&self) -> (r: Vec<String>)
        ensures
            r@.len() == self@.len(),
            forall|i: int| 0 <= i < r@.len() ==> #[trigger] r@[i]@ == summary_line(self@[i]),
    {
        let mut out: Vec<String> = Vec::new();
        let mut i: usize = 0;
        while i < self.groups.len()
            invariant
                i <= self.groups.len(),
                out@.len() == i,
                forall|j: int| 0 <= j < i ==> #[trigger] out@[j]@ == summary_line(self@[j]),
            decreases self.groups.len() - i,
        {
            let g = &self.groups[i];
            let v = JavaClassVersion { major: g.major, minor: 0 };
            let mut line = v.to_jdk_version();
            line.append(": ");
            push_decimal(&mut line, g.files.len() as u64);
            assert(line@ =~= summary_line(self@[i as int]));
            out.push(line);
            i = i + 1;
        }
        out
    }
}

} // verus!
