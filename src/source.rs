use vstd::prelude::*;

verus! {

/// Pattern of a module header declaration, `module Name (exports) where`;
/// the name may be dotted and the export list may span several lines.
pub const MODULE_HEADER_PATTERN: &'static str = r"module\s+[\w.]+\s+(\((?s:.*?)\)\s+)?where";

/// Pattern of an entry-point definition, its optional type signature and the
/// indented lines that continue it (a blank line ends it).
pub const ENTRY_POINT_PATTERN: &'static str = r"(main\s+::\s+IO\s+\(\)\s+)?main\s+=\s+.*(?:\n[ \t].*)*";

/// The text left when every non-overlapping match of `pattern` in `text` has
/// been removed.
pub uninterp spec fn matches_removed(pattern: Seq<char>, text: Seq<char>) -> Seq<char>;

/// Relies on `regex::Regex::new`, which compiles the two patterns of this
/// module, and on `Regex::replace_all` with an empty replacement, which
/// deletes every non-overlapping match and depends on pattern and text alone;
/// deleting never lengthens the text.
#[verifier::external_body]
fn remove_matches(pattern: &str, text: &Vec<char>) -> (r: Vec<char>)
    requires
        pattern@ == MODULE_HEADER_PATTERN@ || pattern@ == ENTRY_POINT_PATTERN@,
    ensures
        r@ == matches_removed(pattern@, text@),
        r@.len() <= text@.len(),
{
    let haystack: String = text.iter().collect();
    let re = regex::Regex::new(pattern).unwrap();
    re.replace_all(&haystack, "").chars().collect()
}

/// A submission file's text without its module header and entry point.
pub open spec fn stripped(text: Seq<char>) -> Seq<char> {
    matches_removed(ENTRY_POINT_PATTERN@, matches_removed(MODULE_HEADER_PATTERN@, text))
}

/// The candidate sources of a submission: each file's stripped text, in
/// order, leaving out those that strip to nothing.
pub open spec fn candidate_sources(texts: Seq<Seq<char>>) -> Seq<Seq<char>>
    decreases texts.len(),
{
    if texts.len() == 0 {
        Seq::empty()
    } else {
        let s = stripped(texts.last());
        candidate_sources(texts.drop_last()) + if s.len() == 0 { Seq::empty() } else { seq![s] }
    }
}

/// Strips the module header and the entry point from one file's text.
pub fn strip_declarations(text: &Vec<char>) -> (r: Vec<char>)
    ensures
        r@ == stripped(text@),
        r@.len() <= text@.len(),
{
    let without_header = remove_matches(MODULE_HEADER_PATTERN, text);
    remove_matches(ENTRY_POINT_PATTERN, &without_header)
}

/// The candidate sources of one submission, each an independent attempt.
pub struct Code {
    source_codes: Vec<Vec<char>>,
}

impl View for Code {
    type V = Seq<Seq<char>>;

    closed spec fn view(&self) -> Seq<Seq<char>> {
        self.source_codes.deep_view()
    }
}

impl Code {
    /// Builds the candidates from the texts of a submission's files, in order;
    /// a file that could not be read counts as empty text.
    pub fn new(texts: &Vec<Vec<char>>) -> (r: Code)
        ensures
            r@ == candidate_sources(texts.deep_view()),
    {
        let mut source_codes: Vec<Vec<char>> = Vec::new();
        let mut i: usize = 0;
        while i < texts.len()
            invariant
                i <= texts@.len(),
                source_codes.deep_view() == candidate_sources(texts.deep_view().subrange(0, i as int)),
            decreases texts@.len() - i,
        {
            let s = strip_declarations(&texts[i]);
            assert(texts.deep_view().subrange(0, i + 1).drop_last() =~= texts.deep_view().subrange(0, i as int));
            let ghost before = source_codes.deep_view();
            assert(texts.deep_view()[i as int] =~= texts@[i as int]@);
            if s.len() > 0 {
                assert(s.deep_view() =~= s@);
                source_codes.push(s);
                assert(source_codes.deep_view() =~= before + seq![s@]);
            }
            i = i + 1;
            assert(source_codes.deep_view() =~= candidate_sources(texts.deep_view().subrange(0, i as int)));
        }
        assert(texts.deep_view().subrange(0, i as int) =~= texts.deep_view());
        Code { source_codes }
    }

    /// Number of candidates.
    pub fn len(&self) -> (r: usize)
        ensures
            r == self@.len(),
    {
        self.source_codes.len()
    }

    /// The test programs of one test case, one per candidate, in order.
    pub fn harnesses(&self, helpers: &Vec<char>, test_case: &Vec<char>) -> (r: Vec<Vec<char>>)
        ensures
            r@.len() == self@.len(),
            forall|i: int| 0 <= i < r@.len() ==> r@[i]@ == crate::harness::harness_text(helpers@, self@[i], test_case@),
    {
        let mut out: Vec<Vec<char>> = Vec::new();
        let mut i: usize = 0;
        while i < self.source_codes.len()
            invariant
                i <= self.source_codes@.len(),
                self@ == self.source_codes.deep_view(),
                out@.len() == i,
                forall|k: int| 0 <= k < i ==> out@[k]@ == crate::harness::harness_text(helpers@, self@[k], test_case@),
            decreases self.source_codes@.len() - i,
        {
            let h = crate::harness::build_harness(helpers, &self.source_codes[i], test_case);
            out.push(h);
            i = i + 1;
        }
        out
    }
}

} // verus!
