//! Which files are intercepted, and what their readers see.

use globset::{Candidate, Glob, GlobSet, GlobSetBuilder};
use vstd::prelude::*;

use crate::provider;

verus! {

/// The line feed that stands between the content of a file and its extra content.
pub const NEWLINE: u8 = 0x0a;

/// `globset::Glob`: a pattern that was parsed.
#[verifier::external_type_specification]
#[verifier::external_body]
pub struct ExGlob(Glob);

/// `globset::GlobSetBuilder`: globs that are to be compiled into one set.
#[verifier::external_type_specification]
#[verifier::external_body]
pub struct ExGlobSetBuilder(GlobSetBuilder);

/// `globset::GlobSet`: globs that were compiled into one set.
#[verifier::external_type_specification]
#[verifier::external_body]
pub struct ExGlobSet(GlobSet);

/// `globset::Error`: why a pattern cannot be parsed, or globs cannot be compiled.
#[verifier::external_type_specification]
#[verifier::external_body]
pub struct ExGlobError(globset::Error);

/// The pattern that a glob was parsed from.
pub uninterp spec fn glob_text(glob: Glob) -> Seq<char>;

/// The patterns of the globs that a builder holds, in the order in which they were
/// added.
pub uninterp spec fn builder_texts(builder: GlobSetBuilder) -> Seq<Seq<char>>;

/// The patterns of the globs that a set was built from.
pub uninterp spec fn set_texts(set: GlobSet) -> Seq<Seq<char>>;

/// The error with which `Glob::new` rejects a pattern; `None` where it accepts it.
pub uninterp spec fn glob_rejection(text: Seq<char>) -> Option<globset::Error>;

/// Whether a pattern can be parsed.
pub open spec fn glob_is_valid(text: Seq<char>) -> bool {
    glob_rejection(text) is None
}

/// Whether `GlobSetBuilder::build` makes a set of the globs of these patterns.
pub uninterp spec fn globs_compile(texts: Seq<Seq<char>>) -> bool;

/// Whether a path matches the glob that `Glob::new` makes of a pattern.
pub uninterp spec fn glob_matches(text: Seq<char>, path: Seq<u8>) -> bool;

/// `Glob::new` parses a pattern. Claims that the pattern alone decides whether that
/// succeeds and with which error it fails, and that the glob keeps it.
pub assume_specification[ Glob::new ](glob: &str) -> (r: Result<Glob, globset::Error>)
    ensures
        r is Ok <==> glob_rejection(glob@) is None,
        r matches Ok(parsed) ==> glob_text(parsed) == glob@,
        r matches Err(error) ==> glob_rejection(glob@) == Some(error),
;

/// `GlobSetBuilder::new` makes a builder without globs.
pub assume_specification[ GlobSetBuilder::new ]() -> (r: GlobSetBuilder)
    ensures
        builder_texts(r) == Seq::<Seq<char>>::empty(),
;

/// Calls `GlobSetBuilder::add`, which puts a glob behind those that the builder holds.
#[verifier::external_body]
fn add_glob(builder: &mut GlobSetBuilder, glob: Glob)
    ensures
        builder_texts(*final(builder)) == builder_texts(*old(builder)).push(glob_text(glob)),
{
    builder.add(glob);
}

/// `GlobSetBuilder::build` compiles the globs of a builder. Claims that their patterns
/// decide whether that succeeds, and that the set is built from them all. Which error comes
/// where several globs are too large is not stated: it goes by the order in which a hash map
/// is walked.
pub assume_specification[ GlobSetBuilder::build ](builder: &GlobSetBuilder) -> (r: Result<
    GlobSet,
    globset::Error,
>)
    ensures
        r is Ok <==> globs_compile(builder_texts(*builder)),
        r matches Ok(set) ==> set_texts(set) == builder_texts(*builder),
;

/// Calls `GlobSet::is_match_candidate` on the candidate of a byte string, which
/// answers whether any glob of the set matches.
#[verifier::external_body]
fn any_glob_matches(set: &GlobSet, path: &[u8]) -> (r: bool)
    ensures
        r == (exists|i: int|
            0 <= i < set_texts(*set).len() && #[trigger] glob_matches(set_texts(*set)[i], path@)),
{
    set.is_match_candidate(&Candidate::from_bytes(path))
}

/// Whether a path matches the glob of at least one pattern.
pub open spec fn some_glob_matches(patterns: Seq<Seq<char>>, path: Seq<u8>) -> bool {
    exists|i: int| 0 <= i < patterns.len() && #[trigger] glob_matches(patterns[i], path)
}

/// Why a list of patterns cannot be used.
#[derive(Debug)]
pub enum InterceptError {
    /// The pattern at `index` is the first that cannot be parsed.
    Pattern { index: usize, error: globset::Error },
    /// The patterns cannot be compiled into one set.
    Compilation { error: globset::Error },
}

/// What the readers of an intercepted file see: the file, and behind a line feed the
/// extra content where there is any.
pub open spec fn assembled(content: Seq<u8>, extra: Seq<u8>) -> Seq<u8> {
    if extra.len() == 0 {
        content
    } else {
        content.push(NEWLINE) + extra
    }
}

/// How long an intercepted file is to its readers, where extra content makes it longer.
pub open spec fn inflated(real_size: u64, extra: Option<Seq<u8>>) -> Option<int> {
    match extra {
        Some(text) => if text.len() == 0 {
            None
        } else {
            Some(real_size + 1 + text.len())
        },
        None => None,
    }
}

/// Decides which files are intercepted.
pub struct InterceptMatcher {
    globs: GlobSet,
}

impl View for InterceptMatcher {
    type V = Seq<Seq<char>>;

    closed spec fn view(&self) -> Seq<Seq<char>> {
        set_texts(self.globs)
    }
}

impl InterceptMatcher {
    /// A matcher for the files whose name matches one of the patterns.
    pub fn new(patterns: &[String]) -> (r: Result<Self, InterceptError>)
        ensures
            match r {
                Ok(matcher) => {
                    let texts = provider::texts(patterns@);
                    &&& forall|i: int| 0 <= i < texts.len() ==> #[trigger] glob_is_valid(texts[i])
                    &&& globs_compile(texts)
                    &&& matcher@ == texts
                },
                Err(InterceptError::Pattern { index, error }) => {
                    &&& index < patterns@.len()
                    &&& forall|i: int| 0 <= i < index ==> #[trigger] glob_is_valid(patterns@[i]@)
                    &&& glob_rejection(patterns@[index as int]@) == Some(error)
                },
                Err(InterceptError::Compilation { error }) => {
                    let texts = provider::texts(patterns@);
                    &&& forall|i: int| 0 <= i < texts.len() ==> #[trigger] glob_is_valid(texts[i])
                    &&& !globs_compile(texts)
                },
            },
    {
        let mut builder = GlobSetBuilder::new();
        let ghost texts = provider::texts(patterns@);
        let mut i: usize = 0;
        assert(builder_texts(builder) =~= texts.take(0));
        while i < patterns.len()
            invariant
                i <= patterns@.len(),
                texts == provider::texts(patterns@),
                builder_texts(builder) == texts.take(i as int),
                forall|j: int| 0 <= j < i ==> #[trigger] glob_is_valid(texts[j]),
            decreases patterns@.len() - i,
        {
            match Glob::new(patterns[i].as_str()) {
                Ok(glob) => {
                    add_glob(&mut builder, glob);
                },
                Err(error) => {
                    proof {
                        assert forall|j: int| 0 <= j < i implies #[trigger] glob_is_valid(
                            patterns@[j]@,
                        ) by {
                            assert(glob_is_valid(texts[j]));
                        }
                    }
                    return Err(InterceptError::Pattern { index: i, error });
                },
            }
            assert(texts.take(i + 1) =~= texts.take(i as int).push(texts[i as int]));
            i = i + 1;
        }
        assert(texts.take(patterns@.len() as int) =~= texts);
        match builder.build() {
            Ok(globs) => Ok(InterceptMatcher { globs }),
            Err(error) => Err(InterceptError::Compilation { error }),
        }
    }

    /// Whether a file of this name is intercepted.
    pub fn is_intercepted(&self, filename: &[u8]) -> (r: bool)
        ensures
            r == some_glob_matches(self@, filename@),
    {
        any_glob_matches(&self.globs, filename)
    }

    /// Puts the extra content behind the content of the file.
    pub fn assemble(content: Vec<u8>, extra: &[u8]) -> (r: Vec<u8>)
        ensures
            r@ == assembled(content@, extra@),
    {
        let mut full = content;
        if extra.len() > 0 {
            full.push(NEWLINE);
            let ghost front = full@;
            full.extend_from_slice(extra);
            assert(full@ =~= front + extra@);
        }
        full
    }

    /// How long the file is to its readers: its size, one byte for the line feed and
    /// the length of the extra content. `None` where there is no extra content, or
    /// none could be had.
    pub fn inflated_size(real_size: u64, extra: Option<&[u8]>) -> (r: Option<u64>)
        requires
            extra matches Some(text) ==> text@.len() > 0 ==> real_size + 1 + text@.len()
                <= u64::MAX,
        ensures
            match r {
                Some(size) => extra matches Some(text) && inflated(real_size, Some(text@)) == Some(
                    size as int,
                ),
                None => extra matches Some(text) ==> inflated(real_size, Some(text@)) is None,
            },
    {
        match extra {
            Some(text) => {
                if text.len() == 0 {
                    None
                } else {
                    Some(real_size + 1 + text.len() as u64)
                }
            },
            None => None,
        }
    }
}

/// The size that is reported of an intercepted file is the length of what its readers
/// see.
pub proof fn law_reported_size_is_the_length_read(content: Seq<u8>, extra: Seq<u8>)
    requires
        content.len() <= u64::MAX,
    ensures
        assembled(content, extra).len() == inflated(content.len() as u64, Some(extra)).unwrap_or(
            content.len() as int,
        ),
{
}

/// The readers of an intercepted file see the file first, unchanged.
pub proof fn law_real_content_comes_first(content: Seq<u8>, extra: Seq<u8>)
    ensures
        assembled(content, extra).take(content.len() as int) == content,
        extra.len() > 0 ==> assembled(content, extra).skip(content.len() as int + 1) == extra,
        extra.len() > 0 ==> assembled(content, extra)[content.len() as int] == NEWLINE,
{
    assert(assembled(content, extra).take(content.len() as int) =~= content);
    if extra.len() > 0 {
        assert(assembled(content, extra).skip(content.len() as int + 1) =~= extra);
    }
}

/// A file is intercepted as soon as one pattern matches it: a list of one pattern goes by
/// that pattern, two lists together by either, and an empty list intercepts nothing.
pub proof fn law_any_pattern_intercepts(
    text: Seq<char>,
    some: Seq<Seq<char>>,
    more: Seq<Seq<char>>,
    path: Seq<u8>,
)
    ensures
        !some_glob_matches(Seq::<Seq<char>>::empty(), path),
        some_glob_matches(seq![text], path) == glob_matches(text, path),
        some_glob_matches(some + more, path) == (some_glob_matches(some, path)
            || some_glob_matches(more, path)),
{
    assert(seq![text][0] == text);
    let all = some + more;
    if some_glob_matches(some, path) {
        let i = choose|i: int| 0 <= i < some.len() && #[trigger] glob_matches(some[i], path);
        assert(glob_matches(all[i], path));
    }
    if some_glob_matches(more, path) {
        let i = choose|i: int| 0 <= i < more.len() && #[trigger] glob_matches(more[i], path);
        assert(all[some.len() + i] == more[i]);
        assert(glob_matches(all[some.len() + i], path));
    }
    if some_glob_matches(all, path) {
        let i = choose|i: int| 0 <= i < all.len() && #[trigger] glob_matches(all[i], path);
        if i < some.len() {
            assert(glob_matches(some[i], path));
        } else {
            assert(glob_matches(more[i - some.len()], path));
        }
    }
}

/// The readers of an intercepted file see all of the file, one line feed and all of the extra
/// content, in this order and nothing else; the file alone where there is no extra content.
pub proof fn law_readers_see_file_line_feed_and_extra(content: Seq<u8>, extra: Seq<u8>)
    ensures
        extra.len() == 0 ==> assembled(content, extra) == content,
        extra.len() > 0 ==> assembled(content, extra) == content + seq![0x0au8] + extra,
        extra.len() > 0 ==> assembled(content, extra).len() == content.len() + 1 + extra.len(),
{
    if extra.len() > 0 {
        assert(assembled(content, extra) =~= content + seq![0x0au8] + extra);
    }
}

/// Extra content makes a file longer by its length and one byte; without any, or where none
/// could be had, there is no other size than the file's own.
pub proof fn law_extra_content_adds_its_length_and_one(real_size: u64, extra: Seq<u8>)
    ensures
        extra.len() > 0 ==> inflated(real_size, Some(extra)) == Some(
            (real_size + extra.len() + 1) as int,
        ),
        extra.len() == 0 ==> inflated(real_size, Some(extra)) is None,
        inflated(real_size, None) is None,
{
}

} // verus!
