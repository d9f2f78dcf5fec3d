//! The project parser and the project index.
//!
//! A declaration file is scanned for resource and module blocks with two
//! regular expressions. This is a structural text scan, not a grammar: a
//! block is what its pattern matches, and a block counts as repeated where
//! its text holds `count =` or `for_each =`, wherever in the block that is.

use crate::error::{ErrorView, TfocusError};
use crate::pattern::{captures_in, pattern_captures, pattern_compiles};
use crate::text::{
    chars_of, compare, contains, contains_text, lemma_precedes_asymmetric, lemma_precedes_total,
    lemma_precedes_transitive, precedes, sorted_distinct, strictly_ascending, TextOrder,
};
use crate::types::{Resource, ResourceView, Target, TargetView};
use vstd::prelude::*;
use vstd::string::StringExecFns;

verus! {

/// The pattern of a resource block: at the start of a line, after optional
/// white space, the keyword `resource`, two quoted tokens, an opening brace,
/// and the shortest text up to a closing brace that stands first on its
/// line. Group 1 is the type, group 2 the name.
pub const RESOURCE_PATTERN: &'static str =
    r#"(?m)^\s*resource\s+"([^"]+)"\s+"([^"]+)"\s*\{(?s:.*?)\n\s*\}"#;

/// The pattern of a module block: as for a resource, with the keyword
/// `module` and one quoted token. Group 1 is the name.
pub const MODULE_PATTERN: &'static str = r#"(?m)^\s*module\s+"([^"]+)"\s*\{(?s:.*?)\n\s*\}"#;

/// The text of `block` assigns `count`.
pub open spec fn mentions_count(block: Seq<char>) -> bool {
    contains_text(block, "count ="@) || contains_text(block, "count="@)
}

/// The text of `block` assigns `for_each`.
pub open spec fn mentions_for_each(block: Seq<char>) -> bool {
    contains_text(block, "for_each ="@) || contains_text(block, "for_each="@)
}

/// The capture group `n` of a match, where the match has such a group and
/// the group took part in it.
pub open spec fn group(groups: Seq<Option<Seq<char>>>, n: int) -> Option<Seq<char>> {
    if 0 <= n < groups.len() {
        groups[n]
    } else {
        None
    }
}

/// The entity that one match declares in the file `path`. A module is named
/// by group 1 and has no type; a resource has its type in group 1 and its
/// name in group 2. The repetition flags are read off the whole match,
/// group 0. The index is left unset. A match that lacks one of these groups
/// declares nothing.
pub open spec fn entity_from(
    groups: Seq<Option<Seq<char>>>,
    is_module: bool,
    path: Seq<char>,
) -> Option<ResourceView> {
    let named = if is_module {
        group(groups, 1)
    } else {
        group(groups, 2)
    };
    if group(groups, 0) is Some && group(groups, 1) is Some && named is Some {
        Some(
            ResourceView {
                resource_type: if is_module {
                    Seq::empty()
                } else {
                    group(groups, 1)->0
                },
                name: named->0,
                is_module,
                file_path: path,
                has_count: mentions_count(group(groups, 0)->0),
                has_for_each: mentions_for_each(group(groups, 0)->0),
                index: None,
            },
        )
    } else {
        None
    }
}

/// The entities that the matches `found` declare in the file `path`, in the
/// order of the matches.
pub open spec fn entities_from(
    found: Seq<Seq<Option<Seq<char>>>>,
    is_module: bool,
    path: Seq<char>,
) -> Seq<ResourceView> {
    found.filter_map(|groups: Seq<Option<Seq<char>>>| entity_from(groups, is_module, path))
}

/// The entities that a file at `path` with the text `content` declares: its
/// resources in the order of their blocks, then its modules in theirs.
pub open spec fn declared_in(path: Seq<char>, content: Seq<char>) -> Seq<ResourceView> {
    entities_from(pattern_captures(RESOURCE_PATTERN@, content), false, path) + entities_from(
        pattern_captures(MODULE_PATTERN@, content),
        true,
        path,
    )
}

/// Both block patterns compile.
pub open spec fn patterns_compile() -> bool {
    pattern_compiles(RESOURCE_PATTERN@) && pattern_compiles(MODULE_PATTERN@)
}

/// Tells whether `block` assigns `count`.
fn block_mentions_count(block: &[char]) -> (r: bool)
    ensures
        r == mentions_count(block@),
{
    let spaced = chars_of("count =");
    let tight = chars_of("count=");
    contains(block, spaced.as_slice()) || contains(block, tight.as_slice())
}

/// Tells whether `block` assigns `for_each`.
fn block_mentions_for_each(block: &[char]) -> (r: bool)
    ensures
        r == mentions_for_each(block@),
{
    let spaced = chars_of("for_each =");
    let tight = chars_of("for_each=");
    contains(block, spaced.as_slice()) || contains(block, tight.as_slice())
}

/// Tells whether an entity of the kind and full name given first is listed
/// before one of the kind and full name given second.
fn comes_before(a_is_module: bool, a_name: &[char], b_is_module: bool, b_name: &[char]) -> (r:
    bool)
    ensures
        r == (a_is_module && !b_is_module || a_is_module == b_is_module && precedes(
            a_name@,
            b_name@,
        )),
{
    if a_is_module != b_is_module {
        a_is_module
    } else {
        compare(a_name, b_name) == TextOrder::Before
    }
}

/// Returns capture group `n` of a match, if the match has it.
fn group_text(groups: &Vec<Option<String>>, n: usize) -> (r: Option<&String>)
    ensures
        r.deep_view() == group(groups.deep_view(), n as int),
{
    if n < groups.len() {
        groups[n].as_ref()
    } else {
        None
    }
}

/// Builds the entity that one match declares in the file `path`, if it
/// declares one.
pub fn entity_from_captures(groups: &Vec<Option<String>>, is_module: bool, path: &str) -> (r:
    Option<Resource>)
    ensures
        r.deep_view() == entity_from(groups.deep_view(), is_module, path@),
{
    let whole = group_text(groups, 0);
    let first = group_text(groups, 1);
    let named = if is_module {
        group_text(groups, 1)
    } else {
        group_text(groups, 2)
    };
    match (whole, first, named) {
        (Some(block), Some(first), Some(name)) => {
            let text = chars_of(block.as_str());
            Some(
                Resource {
                    resource_type: if is_module {
                        String::new()
                    } else {
                        first.clone()
                    },
                    name: name.clone(),
                    is_module,
                    file_path: String::from_str(path),
                    has_count: block_mentions_count(text.as_slice()),
                    has_for_each: block_mentions_for_each(text.as_slice()),
                    index: None,
                },
            )
        },
        _ => None,
    }
}

/// A declaration file as the driver read it.
#[derive(Debug)]
pub struct SourceFile {
    /// The path of the file.
    pub path: String,
    /// The text of the file, or the system's message where the file could
    /// not be read as text.
    pub content: Result<String, String>,
}

/// What parsing `files` in turn comes to: the entities that they declare,
/// file after file, or the first failure. A file fails that could not be
/// read, and every file fails where a block pattern does not compile.
pub open spec fn declared_in_all(files: Seq<SourceFile>) -> Result<Seq<ResourceView>, ErrorView>
    decreases files.len(),
{
    if files.len() == 0 {
        Ok(Seq::empty())
    } else {
        match declared_in_all(files.drop_last()) {
            Err(e) => Err(e),
            Ok(entities) => match files.last().content {
                Err(reason) => Err(ErrorView::Io(reason@)),
                Ok(text) => if patterns_compile() {
                    Ok(entities + declared_in(files.last().path@, text@))
                } else {
                    Err(ErrorView::RegexError)
                },
            },
        }
    }
}

/// Once parsing has failed at one of the first `n` files, it has failed
/// for all of them, and in the same way.
proof fn lemma_failure_is_kept(files: Seq<SourceFile>, n: int)
    requires
        0 <= n <= files.len(),
        declared_in_all(files.take(n)) is Err,
    ensures
        declared_in_all(files) == declared_in_all(files.take(n)),
    decreases files.len() - n,
{
    if n < files.len() {
        assert(files.take(n + 1).drop_last() =~= files.take(n));
        lemma_failure_is_kept(files, n + 1);
    } else {
        assert(files.take(n) =~= files);
    }
}

/// The entities within the scope `target`, as a predicate.
pub open spec fn selected_by(target: TargetView) -> spec_fn(ResourceView) -> bool {
    |e: ResourceView| target.selects(e)
}

/// One of `entities` is a module of the name `name`.
pub open spec fn names_module(entities: Seq<ResourceView>, name: Seq<char>) -> bool {
    exists|i: int|
        0 <= i < entities.len() && (#[trigger] entities[i]).is_module && entities[i].name == name
}

/// One of `entities` is declared in the file `path`.
pub open spec fn names_file(entities: Seq<ResourceView>, path: Seq<char>) -> bool {
    exists|i: int| 0 <= i < entities.len() && (#[trigger] entities[i]).file_path == path
}

/// `a` is listed before `b`: modules come before resources, and within
/// each kind the smaller full name comes first.
pub open spec fn listed_before(a: ResourceView, b: ResourceView) -> bool {
    ||| a.is_module && !b.is_module
    ||| a.is_module == b.is_module && precedes(a.full_name(), b.full_name())
}

/// The entities that are listed at the same place as `e`: of its kind and
/// with its full name.
pub open spec fn ranked_with(e: ResourceView) -> spec_fn(ResourceView) -> bool {
    |x: ResourceView| x.is_module == e.is_module && x.full_name() == e.full_name()
}

/// No entity of `listing` is listed before one that precedes it.
pub open spec fn in_listing_order(listing: Seq<ResourceView>) -> bool {
    forall|i: int, j: int| 0 <= i < j < listing.len() ==> !listed_before(listing[j], listing[i])
}

/// An entity is not listed before itself, nor before one that is listed at
/// its own place, and no two entities are listed before each other.
pub proof fn lemma_listed_before_asymmetric(a: ResourceView, b: ResourceView)
    requires
        listed_before(a, b),
    ensures
        !listed_before(b, a),
        !ranked_with(a)(b),
        !ranked_with(b)(a),
{
    if a.is_module == b.is_module {
        lemma_precedes_asymmetric(a.full_name(), b.full_name());
    }
}

/// Where `a` is listed before `c`, every entity `b` comes after `a` or
/// before `c`.
pub proof fn lemma_listed_before_splits(a: ResourceView, b: ResourceView, c: ResourceView)
    requires
        listed_before(a, c),
    ensures
        listed_before(a, b) || listed_before(b, c),
{
    if a.is_module == c.is_module && b.is_module == a.is_module {
        lemma_precedes_total(a.full_name(), b.full_name());
        if precedes(b.full_name(), a.full_name()) {
            lemma_precedes_transitive(b.full_name(), a.full_name(), c.full_name());
        }
    }
}

/// Two entities of which neither is listed before the other are listed at
/// the same place.
pub proof fn lemma_listed_before_total(a: ResourceView, b: ResourceView)
    ensures
        listed_before(a, b) || listed_before(b, a) || ranked_with(a)(b),
{
    lemma_precedes_total(a.full_name(), b.full_name());
}

/// The last entity of a listing is the last of those listed at its place.
proof fn lemma_last_of_its_place(listing: Seq<ResourceView>, e: ResourceView)
    requires
        listing.len() > 0,
    ensures
        listing.filter(ranked_with(e)) == if ranked_with(e)(listing.last()) {
            listing.drop_last().filter(ranked_with(e)).push(listing.last())
        } else {
            listing.drop_last().filter(ranked_with(e))
        },
{
    assert(listing =~= listing.drop_last().push(listing.last()));
    listing.drop_last().lemma_filter_push(listing.last(), ranked_with(e));
}

/// Where the entities listed at the place of `e` are not none, one of the
/// listing is listed there.
proof fn lemma_place_is_taken(listing: Seq<ResourceView>, e: ResourceView) -> (i: int)
    requires
        listing.filter(ranked_with(e)).len() > 0,
    ensures
        0 <= i < listing.len(),
        ranked_with(e)(listing[i]),
{
    let kept = listing.filter(ranked_with(e));
    listing.lemma_filter_pred(ranked_with(e), 0);
    assert(kept.contains(kept[0]));
    listing.lemma_filter_contains_rev(ranked_with(e), kept[0]);
    choose|i: int| 0 <= i < listing.len() && listing[i] == kept[0]
}

/// There is one way to list given entities: two listings in listing order
/// that hold at every place the same entities in the same order are the
/// same listing.
pub proof fn lemma_listing_unique(a: Seq<ResourceView>, b: Seq<ResourceView>)
    requires
        in_listing_order(a),
        in_listing_order(b),
        forall|e: ResourceView| a.filter(#[trigger] ranked_with(e)) == b.filter(ranked_with(e)),
    ensures
        a == b,
    decreases a.len() + b.len(),
{
    if a.len() == 0 || b.len() == 0 {
        if a.len() > 0 {
            lemma_last_of_its_place(a, a.last());
            assert(a.filter(ranked_with(a.last())) == b.filter(ranked_with(a.last())));
            b.lemma_filter_len(ranked_with(a.last()));
        }
        if b.len() > 0 {
            lemma_last_of_its_place(b, b.last());
            assert(a.filter(ranked_with(b.last())) == b.filter(ranked_with(b.last())));
            a.lemma_filter_len(ranked_with(b.last()));
        }
        assert(a =~= b);
    } else {
        let x = a.last();
        let y = b.last();
        let a0 = a.drop_last();
        let b0 = b.drop_last();
        lemma_last_of_its_place(a, x);
        lemma_last_of_its_place(b, y);
        assert(a.filter(ranked_with(x)) == b.filter(ranked_with(x)));
        assert(a.filter(ranked_with(y)) == b.filter(ranked_with(y)));
        let j = lemma_place_is_taken(b, x);
        let i = lemma_place_is_taken(a, y);
        assert(!listed_before(y, b[j]));
        assert(!listed_before(x, a[i]));
        lemma_listed_before_total(x, y);
        assert(ranked_with(x)(y));
        lemma_last_of_its_place(b, x);
        assert(a.filter(ranked_with(x)).last() == x);
        assert(b.filter(ranked_with(x)).last() == y);
        assert(x == y);
        assert forall|e: ResourceView|
            a0.filter(#[trigger] ranked_with(e)) == b0.filter(ranked_with(e)) by {
            lemma_last_of_its_place(a, e);
            lemma_last_of_its_place(b, e);
            assert(a.filter(ranked_with(e)) == b.filter(ranked_with(e)));
            if ranked_with(e)(x) {
                assert(a0.filter(ranked_with(e)) =~= a.filter(ranked_with(e)).drop_last());
                assert(b0.filter(ranked_with(e)) =~= b.filter(ranked_with(e)).drop_last());
            }
        }
        assert forall|m: int, n: int| 0 <= m < n < a0.len() implies !listed_before(
            a0[n],
            a0[m],
        ) by {
            assert(a0[n] == a[n] && a0[m] == a[m]);
        }
        assert forall|m: int, n: int| 0 <= m < n < b0.len() implies !listed_before(
            b0[n],
            b0[m],
        ) by {
            assert(b0[n] == b[n] && b0[m] == b[m]);
        }
        lemma_listing_unique(a0, b0);
        assert(a =~= a0.push(x));
        assert(b =~= b0.push(y));
    }
}

/// Putting `x` into `listing` at `at`, before nothing but entities that are
/// listed after it, adds `x` at the end of those listed at its place and
/// leaves the entities at every other place as they were.
proof fn lemma_insert_keeps_places(
    listing: Seq<ResourceView>,
    at: int,
    x: ResourceView,
    e: ResourceView,
)
    requires
        0 <= at <= listing.len(),
        forall|k: int| at <= k < listing.len() ==> listed_before(x, #[trigger] listing[k]),
    ensures
        listing.insert(at, x).filter(ranked_with(e)) == listing.push(x).filter(ranked_with(e)),
{
    let place = ranked_with(e);
    let head = listing.subrange(0, at);
    let tail = listing.subrange(at, listing.len() as int);
    assert(listing =~= head + tail);
    Seq::filter_distributes_over_add(head, tail, place);
    Seq::filter_distributes_over_add(head.push(x), tail, place);
    head.lemma_filter_push(x, place);
    listing.lemma_filter_push(x, place);
    if place(x) {
        assert forall|k: int| 0 <= k < tail.len() implies !place(#[trigger] tail[k]) by {
            assert(tail[k] == listing[at + k]);
            lemma_listed_before_asymmetric(x, tail[k]);
        }
        assert(tail.all(|y: ResourceView| !place(y)));
        tail.lemma_all_neg_filter_empty(place);
        assert(tail.filter(place) =~= Seq::<ResourceView>::empty());
        assert(head.filter(place).push(x) + tail.filter(place) =~= (head.filter(place)
            + tail.filter(place)).push(x));
    }
}

/// The project index: every entity found in a parse session, in the order
/// in which it was found.
pub struct TerraformProject {
    resources: Vec<Resource>,
}

impl View for TerraformProject {
    type V = Seq<ResourceView>;

    closed spec fn view(&self) -> Seq<ResourceView> {
        self.resources.deep_view()
    }
}

impl TerraformProject {
    /// What holds of every entity of an index: it is well formed, and no
    /// instance is singled out.
    #[verifier::type_invariant]
    closed spec fn discovered(self) -> bool {
        forall|i: int|
            0 <= i < self.resources@.len() ==> (#[trigger] self.resources@[i])@.well_formed()
                && self.resources@[i]@.index is None
    }

    /// Creates an empty index.
    pub fn new() -> (r: Self)
        ensures
            r@ == Seq::<ResourceView>::empty(),
    {
        TerraformProject { resources: Vec::new() }
    }

    /// Moves the entities out of the index, leaving it empty.
    fn take_entities(&mut self) -> (r: Vec<Resource>)
        ensures
            r.deep_view() == old(self)@,
            final(self)@.len() == 0,
            forall|i: int|
                0 <= i < r@.len() ==> (#[trigger] r@[i])@.well_formed() && r@[i]@.index is None,
    {
        proof {
            use_type_invariant(&*self);
        }
        let mut emptied = TerraformProject { resources: Vec::new() };
        std::mem::swap(self, &mut emptied);
        emptied.resources
    }

    /// Adds the entities that the matches `found` declare in the file
    /// `path`, in the order of the matches.
    pub fn add_declarations(
        &mut self,
        found: &Vec<Vec<Option<String>>>,
        is_module: bool,
        path: &str,
    )
        ensures
            final(self)@ == old(self)@ + entities_from(found.deep_view(), is_module, path@),
    {
        let ghost extract = |groups: Seq<Option<Seq<char>>>| entity_from(groups, is_module, path@);
        let mut entities = self.take_entities();
        let mut i: usize = 0;
        while i < found.len()
            invariant
                i <= found@.len(),
                extract == |groups: Seq<Option<Seq<char>>>| entity_from(groups, is_module, path@),
                entities.deep_view() == old(self)@ + found.deep_view().take(i as int).filter_map(
                    extract,
                ),
                forall|k: int|
                    0 <= k < entities@.len() ==> (#[trigger] entities@[k])@.well_formed()
                        && entities@[k]@.index is None,
            decreases found@.len() - i,
        {
            proof {
                found.deep_view().lemma_filter_map_take_succ(extract, i as int);
            }
            let ghost before = entities.deep_view();
            match entity_from_captures(&found[i], is_module, path) {
                Some(entity) => {
                    entities.push(entity);
                    assert(entities.deep_view() =~= before.push(entity@));
                },
                None => {},
            }
            i += 1;
        }
        assert(found.deep_view().take(i as int) =~= found.deep_view());
        self.resources = entities;
    }

    /// Parses the text `content` of the file at `path` and adds what it
    /// declares: its resources, then its modules. A file that declares
    /// nothing adds nothing. The call fails only where a block pattern does
    /// not compile, and then the index is as it was.
    pub fn parse_file(&mut self, path: &str, content: &str) -> (r: Result<(), TfocusError>)
        ensures
            r is Ok <==> patterns_compile(),
            r is Ok ==> final(self)@ == old(self)@ + declared_in(path@, content@),
            r matches Err(e) ==> e@ == ErrorView::RegexError && final(self)@ == old(self)@,
    {
        let resources = match captures_in(RESOURCE_PATTERN, content) {
            Ok(found) => found,
            Err(e) => {
                return Err(TfocusError::RegexError(e));
            },
        };
        let modules = match captures_in(MODULE_PATTERN, content) {
            Ok(found) => found,
            Err(e) => {
                return Err(TfocusError::RegexError(e));
            },
        };
        self.add_declarations(&resources, false, path);
        self.add_declarations(&modules, true, path);
        Ok(())
    }

    /// Builds the index of a project from its declaration files, as the
    /// scan found them and the driver read them. A project without a
    /// declaration file is refused. Otherwise the files are parsed in
    /// turn; the first file that fails makes the whole operation fail,
    /// and no index is handed out.
    pub fn parse_directory(files: &[SourceFile]) -> (r: Result<TerraformProject, TfocusError>)
        ensures
            match r {
                Ok(project) => files@.len() > 0 && declared_in_all(files@) == Ok::<
                    Seq<ResourceView>,
                    ErrorView,
                >(project@),
                Err(e) => if files@.len() == 0 {
                    e@ == ErrorView::NoTerraformFiles
                } else {
                    declared_in_all(files@) == Err::<Seq<ResourceView>, ErrorView>(e@)
                },
            },
    {
        if files.len() == 0 {
            return Err(TfocusError::NoTerraformFiles);
        }
        let mut project = TerraformProject::new();
        let mut i: usize = 0;
        while i < files.len()
            invariant
                i <= files@.len(),
                declared_in_all(files@.take(i as int)) == Ok::<Seq<ResourceView>, ErrorView>(
                    project@,
                ),
            decreases files@.len() - i,
        {
            assert(files@.take(i + 1).drop_last() =~= files@.take(i as int));
            let parsed = match &files[i].content {
                Ok(text) => project.parse_file(files[i].path.as_str(), text.as_str()),
                Err(reason) => Err(TfocusError::Io(reason.clone())),
            };
            if let Err(e) = parsed {
                proof {
                    lemma_failure_is_kept(files@, i + 1);
                }
                return Err(e);
            }
            i += 1;
        }
        assert(files@.take(i as int) =~= files@);
        Ok(project)
    }

    /// Returns the entities within the scope `target`, in the order in
    /// which they were found. Where nothing matches the result is empty.
    pub fn get_resources_by_target(&self, target: &Target) -> (r: Vec<Resource>)
        ensures
            r.deep_view() == self@.filter(selected_by(target@)),
            forall|i: int|
                0 <= i < r@.len() ==> (#[trigger] r@[i])@.well_formed() && r@[i]@.index is None,
    {
        proof {
            use_type_invariant(self);
        }
        let mut selected: Vec<Resource> = Vec::new();
        let mut i: usize = 0;
        while i < self.resources.len()
            invariant
                i <= self.resources@.len(),
                selected.deep_view() == self@.take(i as int).filter(selected_by(target@)),
                forall|k: int|
                    0 <= k < self.resources@.len() ==> (
                    #[trigger] self.resources@[k])@.well_formed()
                        && self.resources@[k]@.index is None,
                forall|k: int|
                    0 <= k < selected@.len() ==> (#[trigger] selected@[k])@.well_formed()
                        && selected@[k]@.index is None,
            decreases self.resources@.len() - i,
        {
            proof {
                assert(self@.take(i + 1) =~= self@.take(i as int).push(self@[i as int]));
                self@.take(i as int).lemma_filter_push(self@[i as int], selected_by(target@));
            }
            if target.selects(&self.resources[i]) {
                selected.push(self.resources[i].clone());
            }
            i += 1;
        }
        assert(self@.take(i as int) =~= self@);
        selected
    }

    /// Returns every entity, modules first, then resources, each kind in
    /// ascending order of full name. Entities of one kind and full name
    /// keep the order in which they were found.
    pub fn get_all_resources(&self) -> (r: Vec<Resource>)
        ensures
            r.deep_view().to_multiset() == self@.to_multiset(),
            in_listing_order(r.deep_view()),
            forall|e: ResourceView|
                r.deep_view().filter(#[trigger] ranked_with(e)) == self@.filter(ranked_with(e)),
            forall|i: int|
                0 <= i < r@.len() ==> (#[trigger] r@[i])@.well_formed() && r@[i]@.index is None,
    {
        proof {
            use_type_invariant(self);
        }
        let mut listing: Vec<Resource> = Vec::new();
        let mut names: Vec<Vec<char>> = Vec::new();
        let mut i: usize = 0;
        assert(self@.take(0) =~= listing.deep_view());
        while i < self.resources.len()
            invariant
                i <= self.resources@.len(),
                listing@.len() == i,
                names@.len() == i,
                forall|k: int|
                    0 <= k < i ==> (#[trigger] names@[k])@ == listing@[k]@.full_name(),
                listing.deep_view().to_multiset() == self@.take(i as int).to_multiset(),
                in_listing_order(listing.deep_view()),
                forall|e: ResourceView|
                    listing.deep_view().filter(#[trigger] ranked_with(e)) == self@.take(
                        i as int,
                    ).filter(ranked_with(e)),
                forall|k: int|
                    0 <= k < self.resources@.len() ==> (
                    #[trigger] self.resources@[k])@.well_formed()
                        && self.resources@[k]@.index is None,
                forall|k: int|
                    0 <= k < listing@.len() ==> (#[trigger] listing@[k])@.well_formed()
                        && listing@[k]@.index is None,
            decreases self.resources@.len() - i,
        {
            let entity = self.resources[i].clone();
            let full_name = entity.full_name();
            let name = chars_of(full_name.as_str());
            let mut at: usize = i;
            while at > 0 && comes_before(
                entity.is_module,
                name.as_slice(),
                listing[at - 1].is_module,
                names[at - 1].as_slice(),
            )
                invariant
                    at <= i,
                    listing@.len() == i,
                    names@.len() == i,
                    name@ == entity@.full_name(),
                    forall|k: int|
                        0 <= k < i ==> (#[trigger] names@[k])@ == listing@[k]@.full_name(),
                    forall|k: int|
                        at <= k < i ==> listed_before(entity@, (#[trigger] listing@[k])@),
                decreases at,
            {
                at -= 1;
            }
            let ghost before = listing.deep_view();
            let ghost x = entity@;
            listing.insert(at, entity);
            names.insert(at, name);
            proof {
                let after = listing.deep_view();
                assert(after =~= before.insert(at as int, x));
                assert(self@.take(i + 1) =~= self@.take(i as int).push(x));
                vstd::seq_lib::to_multiset_insert(before, at as int, x);
                vstd::seq_lib::to_multiset_build(self@.take(i as int), x);
                // Every place holds what it held, and the entity's own place
                // holds it last.
                assert forall|k: int| at <= k < before.len() implies listed_before(
                    x,
                    #[trigger] before[k],
                ) by {
                    assert(before[k] == listing@[k + 1]@);
                }
                assert forall|e: ResourceView|
                    after.filter(#[trigger] ranked_with(e)) == self@.take(i + 1).filter(
                        ranked_with(e),
                    ) by {
                    lemma_insert_keeps_places(before, at as int, x, e);
                    before.lemma_filter_push(x, ranked_with(e));
                    self@.take(i as int).lemma_filter_push(x, ranked_with(e));
                }
                // The listing is still in order: the entity stands after all
                // that are not listed after it.
                assert forall|a: int, b: int| 0 <= a < b < after.len() implies !listed_before(
                    after[b],
                    after[a],
                ) by {
                    if b == at {
                        if a < at - 1 && listed_before(x, before[a]) {
                            lemma_listed_before_splits(x, before[at - 1], before[a]);
                        }
                    } else if a == at {
                        lemma_listed_before_asymmetric(x, before[b - 1]);
                    }
                }
            }
            i += 1;
        }
        assert(self@.take(i as int) =~= self@);
        listing
    }

    /// Returns the names of the modules, each once, in ascending order.
    pub fn get_modules(&self) -> (r: Vec<String>)
        ensures
            strictly_ascending(r.deep_view()),
            forall|name: Seq<char>| r.deep_view().contains(name) <==> names_module(self@, name),
    {
        let mut names: Vec<String> = Vec::new();
        let mut i: usize = 0;
        while i < self.resources.len()
            invariant
                i <= self.resources@.len(),
                forall|k: int|
                    0 <= k < i && (#[trigger] self@[k]).is_module ==> names.deep_view().contains(
                        self@[k].name,
                    ),
                forall|n: int|
                    0 <= n < names@.len() ==> names_module(self@, (#[trigger] names@[n])@),
            decreases self.resources@.len() - i,
        {
            let ghost before = names.deep_view();
            if self.resources[i].is_module {
                names.push(self.resources[i].name.clone());
                proof {
                    let after = names.deep_view();
                    assert(after =~= before.push(self@[i as int].name));
                    assert(after[after.len() - 1] == self@[i as int].name);
                    assert forall|k: int|
                        0 <= k < i && (#[trigger] self@[k]).is_module implies after.contains(
                        self@[k].name,
                    ) by {
                        let n = choose|n: int| 0 <= n < before.len() && before[n] == self@[k].name;
                        assert(after[n] == self@[k].name);
                    }
                }
            }
            i += 1;
        }
        let sorted = sorted_distinct(names.as_slice());
        proof {
            assert forall|name: Seq<char>|
                sorted.deep_view().contains(name) <==> names_module(self@, name) by {
                if names.deep_view().contains(name) {
                    let n = choose|n: int| 0 <= n < names@.len() && names.deep_view()[n] == name;
                    assert(names@[n]@ == name);
                }
            }
        }
        sorted
    }

    /// Returns the paths of the files that declare something, each once, in
    /// ascending order.
    pub fn get_unique_files(&self) -> (r: Vec<String>)
        ensures
            strictly_ascending(r.deep_view()),
            forall|path: Seq<char>| r.deep_view().contains(path) <==> names_file(self@, path),
    {
        let mut paths: Vec<String> = Vec::new();
        let mut i: usize = 0;
        while i < self.resources.len()
            invariant
                i <= self.resources@.len(),
                paths@.len() == i,
                forall|k: int| 0 <= k < i ==> (#[trigger] paths@[k])@ == self@[k].file_path,
            decreases self.resources@.len() - i,
        {
            paths.push(self.resources[i].file_path.clone());
            i += 1;
        }
        let sorted = sorted_distinct(paths.as_slice());
        proof {
            assert forall|path: Seq<char>|
                sorted.deep_view().contains(path) <==> names_file(self@, path) by {
                if paths.deep_view().contains(path) {
                    let n = choose|n: int| 0 <= n < paths@.len() && paths.deep_view()[n] == path;
                    assert(paths@[n]@ == self@[n].file_path);
                }
                if names_file(self@, path) {
                    let k = choose|i: int|
                        0 <= i < self@.len() && (#[trigger] self@[i]).file_path == path;
                    assert(paths.deep_view()[k] == path);
                }
            }
        }
        sorted
    }
}

} // verus!
