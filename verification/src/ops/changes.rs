//! The decisions of `cargo ship changes`: which packages take part, which
//! published version each one is compared against, and what is reported.
//!
//! Reading the workspace, asking the index and printing happen outside this
//! module; they hand their results to the functions here.

use vstd::prelude::*;

use crate::utils::index::{IndexVersion, IndexVersionView};
use crate::utils::version::{
    build_order_is_total, law_version_order_is_total, prerelease_order_is_total, release_le,
    semver_parse, version_le, SemVer, VersionView,
};

verus! {

/// The name under which `publish` lists in a manifest name crates.io.
pub const CRATES_IO_REGISTRY_NAME: &'static str = "crates-io";

/// A package of the workspace, with what the command reads of it.
pub struct Package {
    /// The package's name.
    pub name: String,
    /// Its version in the workspace.
    pub version: SemVer,
    /// The registries that it may be published to: `None` for any,
    /// an empty list for none.
    pub publish: Option<Vec<String>>,
}

/// A package as the contracts see it: name, version and `publish` list.
pub type PackageView = (Seq<char>, VersionView, Option<Seq<Seq<char>>>);

impl View for Package {
    type V = PackageView;

    open spec fn view(&self) -> PackageView {
        (
            self.name@,
            self.version@,
            match self.publish {
                Some(registries) => Some(strings_view(registries@)),
                None => None,
            },
        )
    }
}

/// The texts of a list of strings.
pub open spec fn strings_view(v: Seq<String>) -> Seq<Seq<char>> {
    v.map_values(|r: String| r@)
}

/// A package may go to crates.io: its manifest does not restrict the
/// registries, or it names crates.io among them.
pub open spec fn publishable_spec(pkg: PackageView) -> bool {
    match pkg.2 {
        None => true,
        Some(registries) => registries.contains(CRATES_IO_REGISTRY_NAME@),
    }
}

/// Whether a package may be published to crates.io.
pub fn is_publishable(pkg: &Package) -> (res: bool)
    ensures
        res == publishable_spec(pkg@),
{
    match &pkg.publish {
        None => true,
        Some(registries) => {
            let crates_io = CRATES_IO_REGISTRY_NAME.to_owned();
            let ghost names = strings_view(registries@);
            let mut i: usize = 0;
            while i < registries.len()
                invariant
                    i <= registries@.len(),
                    crates_io@ == CRATES_IO_REGISTRY_NAME@,
                    names == strings_view(registries@),
                    pkg@.2 == Some(names),
                    forall|j: int| 0 <= j < i ==> names[j] != CRATES_IO_REGISTRY_NAME@,
                decreases registries@.len() - i,
            {
                if registries[i] == crates_io {
                    assert(names[i as int] == CRATES_IO_REGISTRY_NAME@);
                    return true;
                }
                i = i + 1;
            }
            false
        },
    }
}

/// The packages of `pkgs` that may be published to crates.io, in order.
pub open spec fn publishable_packages(pkgs: Seq<PackageView>) -> Seq<PackageView>
    decreases pkgs.len(),
{
    if pkgs.len() == 0 {
        Seq::empty()
    } else {
        let rest = publishable_packages(pkgs.drop_last());
        if publishable_spec(pkgs.last()) {
            rest.push(pkgs.last())
        } else {
            rest
        }
    }
}

/// A package is publishable to crates.io exactly when its manifest sets no
/// `publish` list, or its list names `crates-io` at some position, wherever
/// that is; a list that does not name it (`publish = false` is the empty
/// list) keeps the package from crates.io.
pub proof fn law_publishable_when_crates_io_is_listed(pkg: PackageView)
    ensures
        pkg.2 is None ==> publishable_spec(pkg),
        forall|k: int| #![trigger pkg.2.unwrap()[k]] pkg.2 is Some && 0 <= k < pkg.2.unwrap().len()
            && pkg.2.unwrap()[k] == "crates-io"@ ==> publishable_spec(pkg),
        pkg.2 is Some && (forall|k: int| 0 <= k < pkg.2.unwrap().len() ==> pkg.2.unwrap()[k] != "crates-io"@)
            ==> !publishable_spec(pkg),
{
    if let Some(r) = pkg.2 {
        assert forall|k: int| #![trigger r[k]] 0 <= k < r.len() && r[k] == "crates-io"@ implies publishable_spec(pkg) by {
            assert(r[k] == CRATES_IO_REGISTRY_NAME@);
            assert(r.contains(CRATES_IO_REGISTRY_NAME@));
        }
        if forall|k: int| 0 <= k < r.len() ==> r[k] != "crates-io"@ {
            if r.contains(CRATES_IO_REGISTRY_NAME@) {
                let k = choose|k: int| 0 <= k < r.len() && r[k] == CRATES_IO_REGISTRY_NAME@;
                assert(r[k] != "crates-io"@);
            }
        }
    }
}

/// The packages kept from a list are exactly those of it whose manifest sets
/// no `publish` list or lists `crates-io`, in their order: the list filtered
/// by that condition.
pub proof fn law_kept_packages_are_the_publishable_ones(pkgs: Seq<PackageView>)
    ensures
        publishable_packages(pkgs) == pkgs.filter(|p: PackageView| match p.2 {
            None => true,
            Some(r) => exists|k: int| 0 <= k < r.len() && r[k] == "crates-io"@,
        }),
    decreases pkgs.len(),
{
    reveal(Seq::filter);
    let pred = |p: PackageView| match p.2 {
        None => true,
        Some(r) => exists|k: int| 0 <= k < r.len() && r[k] == "crates-io"@,
    };
    if pkgs.len() > 0 {
        law_kept_packages_are_the_publishable_ones(pkgs.drop_last());
        law_publishable_when_crates_io_is_listed(pkgs.last());
        let p = pkgs.last();
        if let Some(r) = p.2 {
            if pred(p) {
                let k = choose|k: int| 0 <= k < r.len() && r[k] == "crates-io"@;
                assert(r[k] == "crates-io"@);
            }
        }
        assert(publishable_spec(p) == pred(p));
    }
}

/// The views of a list of packages.
pub open spec fn packages_view(pkgs: Seq<Package>) -> Seq<PackageView> {
    pkgs.map_values(|p: Package| p@)
}

/// `text` parses to a version that does not come after `current`.
pub open spec fn parses_at_most(text: Seq<char>, current: VersionView) -> bool {
    semver_parse(text) matches Some(v) && version_le(v, current)
}

/// The version texts of the index entries, in order.
pub open spec fn version_texts(versions: Seq<IndexVersionView>) -> Seq<Seq<char>> {
    versions.map_values(|v: IndexVersionView| v.1)
}

/// The published versions that parse and do not come after `current`, in
/// the order of `texts`.
pub open spec fn candidates(texts: Seq<Seq<char>>, current: VersionView) -> Seq<VersionView>
    decreases texts.len(),
{
    if texts.len() == 0 {
        Seq::empty()
    } else {
        let rest = candidates(texts.drop_last(), current);
        match semver_parse(texts.last()) {
            Some(v) => if version_le(v, current) {
                rest.push(v)
            } else {
                rest
            },
            None => rest,
        }
    }
}

/// The greatest of `s` in the order of versions, the last one among equals,
/// as `Iterator::max` finds it; `None` for an empty sequence.
pub open spec fn last_greatest(s: Seq<VersionView>) -> Option<VersionView>
    decreases s.len(),
{
    if s.len() == 0 {
        None
    } else {
        match last_greatest(s.drop_last()) {
            None => Some(s.last()),
            Some(best) => if version_le(best, s.last()) {
                Some(s.last())
            } else {
                Some(best)
            },
        }
    }
}

/// The version that a package's changes are counted from: among the
/// versions that the index has of it, those that parse and do not come after
/// the package's own version, the greatest. `None` where the index has no
/// such crate or no such version.
pub open spec fn baseline_spec(versions: Option<Seq<IndexVersionView>>, current: VersionView) -> Option<VersionView> {
    match versions {
        None => None,
        Some(vs) => last_greatest(candidates(version_texts(vs), current)),
    }
}

/// The views of the index entries of a list.
pub open spec fn index_versions_view(versions: Option<Vec<IndexVersion>>) -> Option<Seq<IndexVersionView>> {
    match versions {
        Some(vs) => Some(vs@.map_values(|v: IndexVersion| v@)),
        None => None,
    }
}

/// The view of an optional version.
pub open spec fn opt_version_view(v: Option<SemVer>) -> Option<VersionView> {
    match v {
        Some(v) => Some(v@),
        None => None,
    }
}

/// Every candidate parses from one of the texts and does not come after
/// `current`; every text that parses to such a version gives a candidate.
proof fn lemma_candidates(texts: Seq<Seq<char>>, current: VersionView)
    ensures
        forall|k: int| 0 <= k < candidates(texts, current).len() ==> {
            &&& version_le(#[trigger] candidates(texts, current)[k], current)
            &&& exists|i: int| 0 <= i < texts.len() && semver_parse(texts[i]) == Some(candidates(texts, current)[k])
        },
        forall|i: int| 0 <= i < texts.len() && #[trigger] parses_at_most(texts[i], current)
            ==> candidates(texts, current).contains(semver_parse(texts[i]).unwrap()),
    decreases texts.len(),
{
    if texts.len() > 0 {
        let prev = texts.drop_last();
        lemma_candidates(prev, current);
        let rest = candidates(prev, current);
        let c = candidates(texts, current);
        assert forall|k: int| 0 <= k < c.len() implies {
            &&& version_le(#[trigger] c[k], current)
            &&& exists|i: int| 0 <= i < texts.len() && semver_parse(texts[i]) == Some(c[k])
        } by {
            if k < rest.len() {
                assert(c[k] == rest[k]);
                let i = choose|i: int| 0 <= i < prev.len() && semver_parse(prev[i]) == Some(rest[k]);
                assert(texts[i] == prev[i]);
            } else {
                assert(semver_parse(texts[texts.len() - 1]) == Some(c[k]));
            }
        }
        assert forall|i: int| 0 <= i < texts.len() && #[trigger] parses_at_most(texts[i], current)
            implies c.contains(semver_parse(texts[i]).unwrap()) by {
            if i < texts.len() - 1 {
                let v = semver_parse(texts[i]).unwrap();
                assert(prev[i] == texts[i]);
                assert(rest.contains(v));
                let k = choose|k: int| 0 <= k < rest.len() && rest[k] == v;
                assert(c[k] == v);
            } else {
                let v = semver_parse(texts[i]).unwrap();
                assert(c[c.len() - 1] == v);
            }
        }
    }
}

/// `a` comes at or before `b` in the order of versions only if it does by
/// release numbers; where it does not, `b` comes at or before `a` by release
/// numbers.
proof fn lemma_order_and_release(a: VersionView, b: VersionView)
    ensures
        version_le(a, b) ==> release_le(a, b),
        !version_le(a, b) ==> release_le(b, a),
{
}

/// The greatest is one of the sequence, and no element has greater release
/// numbers.
proof fn lemma_last_greatest(s: Seq<VersionView>)
    ensures
        last_greatest(s) is None <==> s.len() == 0,
        last_greatest(s) matches Some(best) ==> s.contains(best),
        last_greatest(s) matches Some(best) ==> forall|k: int| 0 <= k < s.len() ==> release_le(#[trigger] s[k], best),
    decreases s.len(),
{
    if s.len() > 0 {
        let prev = s.drop_last();
        lemma_last_greatest(prev);
        let x = s.last();
        match last_greatest(prev) {
            None => {
                assert(s[s.len() - 1] == x);
            },
            Some(best) => {
                lemma_order_and_release(best, x);
                let k0 = choose|k: int| 0 <= k < prev.len() && prev[k] == best;
                assert(s[k0] == best);
                assert(s[s.len() - 1] == x);
                assert forall|k: int| 0 <= k < s.len() implies release_le(#[trigger] s[k], last_greatest(s).unwrap()) by {
                    if k < prev.len() {
                        assert(s[k] == prev[k]);
                        assert(release_le(prev[k], best));
                    }
                }
            },
        }
    }
}

/// Where the order of versions is total, the greatest comes at or after
/// every element of the sequence.
proof fn lemma_last_greatest_is_greatest(s: Seq<VersionView>)
    requires
        prerelease_order_is_total(),
        build_order_is_total(),
    ensures
        last_greatest(s) matches Some(best) ==> forall|k: int| 0 <= k < s.len() ==> version_le(#[trigger] s[k], best),
    decreases s.len(),
{
    if s.len() > 0 {
        let prev = s.drop_last();
        lemma_last_greatest_is_greatest(prev);
        let x = s.last();
        assert(s[s.len() - 1] == x);
        law_version_order_is_total(x, x, x);
        match last_greatest(prev) {
            None => {
                lemma_last_greatest(prev);
            },
            Some(best) => {
                let top = last_greatest(s).unwrap();
                assert forall|k: int| 0 <= k < s.len() implies version_le(#[trigger] s[k], top) by {
                    if k < prev.len() {
                        assert(s[k] == prev[k]);
                        law_version_order_is_total(prev[k], best, x);
                        law_version_order_is_total(best, x, x);
                    } else {
                        law_version_order_is_total(best, x, x);
                    }
                }
            },
        }
    }
}

/// Where semver's orders of pre-releases and build metadata are total, as
/// its documentation says, the baseline comes at or after every published
/// version that parses and does not come after the package's own version:
/// it is the greatest of them.
pub proof fn law_baseline_is_greatest(versions: Seq<IndexVersionView>, current: VersionView)
    requires
        prerelease_order_is_total(),
        build_order_is_total(),
    ensures
        baseline_spec(Some(versions), current) matches Some(b) ==> forall|i: int| 0 <= i < versions.len()
            && #[trigger] parses_at_most(versions[i].1, current) ==> version_le(semver_parse(versions[i].1).unwrap(), b),
{
    let texts = version_texts(versions);
    let c = candidates(texts, current);
    lemma_candidates(texts, current);
    lemma_last_greatest_is_greatest(c);
    if let Some(b) = baseline_spec(Some(versions), current) {
        assert forall|i: int| 0 <= i < versions.len() && #[trigger] parses_at_most(versions[i].1, current)
            implies version_le(semver_parse(versions[i].1).unwrap(), b) by {
            assert(texts[i] == versions[i].1);
            assert(parses_at_most(texts[i], current));
            let v = semver_parse(texts[i]).unwrap();
            assert(c.contains(v));
            let k = choose|k: int| 0 <= k < c.len() && c[k] == v;
            assert(version_le(c[k], b));
        }
    }
}

/// The version that the changes of `pkg` are counted from, given the
/// versions that the index has of it (`None` where it has no such crate).
pub fn baseline_version(pkg: &Package, versions: Option<Vec<IndexVersion>>) -> (res: Option<SemVer>)
    ensures
        opt_version_view(res) == baseline_spec(index_versions_view(versions), pkg.version@),
        // the baseline never comes after the package's own version
        res matches Some(b) ==> version_le(b@, pkg.version@),
        // it is one of the published versions
        res matches Some(b) ==> exists|i: int| 0 <= i < versions.unwrap()@.len()
            && semver_parse(#[trigger] versions.unwrap()@[i].version@) == Some(b@),
        // there is one exactly when some published version parses and does
        // not come after the package's own
        res is Some <==> (versions is Some && exists|i: int| 0 <= i < versions.unwrap()@.len()
            && #[trigger] parses_at_most(versions.unwrap()@[i].version@, pkg.version@)),
        // no such version has greater release numbers
        res matches Some(b) ==> forall|i: int| 0 <= i < versions.unwrap()@.len()
            && #[trigger] parses_at_most(versions.unwrap()@[i].version@, pkg.version@)
            ==> release_le(semver_parse(versions.unwrap()@[i].version@).unwrap(), b@),
{
    let vs = match versions {
        Some(vs) => vs,
        None => return None,
    };
    let ghost current = pkg.version@;
    let ghost texts = version_texts(vs@.map_values(|v: IndexVersion| v@));
    let mut best: Option<SemVer> = None;
    let mut i: usize = 0;
    while i < vs.len()
        invariant
            i <= vs@.len(),
            current == pkg.version@,
            texts == version_texts(vs@.map_values(|v: IndexVersion| v@)),
            texts.len() == vs@.len(),
            opt_version_view(best) == last_greatest(candidates(texts.take(i as int), current)),
        decreases vs@.len() - i,
    {
        let parsed = SemVer::parse(vs[i].version.as_str());
        let ghost prev = candidates(texts.take(i as int), current);
        proof {
            assert(texts[i as int] == vs@[i as int].version@);
            assert(texts.take(i + 1).drop_last() =~= texts.take(i as int));
            assert(texts.take(i + 1).last() == texts[i as int]);
            assert(candidates(texts.take(i + 1), current) == match semver_parse(texts[i as int]) {
                Some(v) => if version_le(v, current) { prev.push(v) } else { prev },
                None => prev,
            });
            if let Some(v) = semver_parse(texts[i as int]) {
                assert(prev.push(v).drop_last() =~= prev);
                assert(prev.push(v).last() == v);
            }
        }
        match parsed {
            Some(v) => {
                if v.le(&pkg.version) {
                    best = match best {
                        None => Some(v),
                        Some(b) => if b.le(&v) {
                            Some(v)
                        } else {
                            Some(b)
                        },
                    };
                }
            },
            None => {},
        }
        i = i + 1;
    }
    proof {
        assert(texts.take(vs@.len() as int) =~= texts);
        let c = candidates(texts, current);
        lemma_candidates(texts, current);
        lemma_last_greatest(c);
        assert forall|i: int| 0 <= i < vs@.len() implies #[trigger] vs@[i].version@ == texts[i] by {}
        if opt_version_view(best) is Some {
            let bv = opt_version_view(best).unwrap();
            let k = choose|k: int| 0 <= k < c.len() && c[k] == bv;
            assert(version_le(c[k], current));
            let j = choose|j: int| 0 <= j < texts.len() && semver_parse(texts[j]) == Some(c[k]);
            assert(parses_at_most(vs@[j].version@, current));
        }
        if best is None {
            assert forall|i: int| 0 <= i < vs@.len() implies
                !#[trigger] parses_at_most(vs@[i].version@, current) by {
                assert(texts[i] == vs@[i].version@);
                if parses_at_most(texts[i], current) {
                    assert(c.contains(semver_parse(texts[i]).unwrap()));
                }
            }
        }
    }
    best
}

/// A name between backticks, as messages quote package names.
pub open spec fn ticked(name: Seq<char>) -> Seq<char> {
    "`"@ + name + "`"@
}

/// The quoted names of the packages, in order.
pub open spec fn ticked_names(pkgs: Seq<PackageView>) -> Seq<Seq<char>>
    decreases pkgs.len(),
{
    if pkgs.len() == 0 {
        Seq::empty()
    } else {
        ticked_names(pkgs.drop_last()).push(ticked(pkgs.last().0))
    }
}

/// The texts of `list` with `sep` between each two.
pub open spec fn joined(list: Seq<Seq<char>>, sep: Seq<char>) -> Seq<char>
    decreases list.len(),
{
    if list.len() == 0 {
        Seq::empty()
    } else if list.len() == 1 {
        list[0]
    } else {
        joined(list.drop_last(), sep) + sep + list.last()
    }
}

/// The name of a package between backticks.
fn ticked_name(pkg: &Package) -> (res: String)
    ensures
        res@ == ticked(pkg@.0),
{
    let mut text = "`".to_owned();
    text.append(pkg.name.as_str());
    text.append("`");
    text
}

/// The note on the excluded packages: `None` where none was excluded, else
/// "ignoring changes for " and the quoted names of those of them that may be
/// published to crates.io, separated by ", ".
pub open spec fn excluded_note_spec(excluded: Seq<PackageView>) -> Option<Seq<char>> {
    if excluded.len() == 0 {
        None
    } else {
        Some("ignoring changes for "@ + joined(ticked_names(publishable_packages(excluded)), ", "@))
    }
}

/// The note on the packages left out of the selection.
pub fn excluded_note(excluded: &Vec<Package>) -> (res: Option<String>)
    ensures
        match res {
            Some(text) => excluded_note_spec(packages_view(excluded@)) == Some(text@),
            None => excluded_note_spec(packages_view(excluded@)) is None,
        },
{
    if excluded.len() == 0 {
        return None;
    }
    let ghost all = packages_view(excluded@);
    let mut names = String::new();
    let mut count: usize = 0;
    let mut i: usize = 0;
    while i < excluded.len()
        invariant
            i <= excluded@.len(),
            all == packages_view(excluded@),
            count == ticked_names(publishable_packages(all.take(i as int))).len(),
            count <= i,
            names@ == joined(ticked_names(publishable_packages(all.take(i as int))), ", "@),
        decreases excluded@.len() - i,
    {
        let ghost before = ticked_names(publishable_packages(all.take(i as int)));
        proof {
            assert(all.take(i + 1).drop_last() =~= all.take(i as int));
            assert(all.take(i + 1).last() == excluded@[i as int]@);
        }
        if is_publishable(&excluded[i]) {
            let piece = ticked_name(&excluded[i]);
            if count > 0 {
                names.append(", ");
            }
            names.append(piece.as_str());
            count = count + 1;
            proof {
                let after = before.push(piece@);
                let kept = publishable_packages(all.take(i as int));
                assert(publishable_packages(all.take(i + 1)) == kept.push(excluded@[i as int]@));
                assert(kept.push(excluded@[i as int]@).drop_last() =~= kept);
                assert(ticked_names(publishable_packages(all.take(i + 1))) == after);
                assert(after.drop_last() =~= before);
                if before.len() == 0 {
                    assert(names@ =~= piece@);
                }
            }
        }
        i = i + 1;
    }
    proof {
        assert(all.take(excluded@.len() as int) =~= all);
    }
    let mut text = "ignoring changes for ".to_owned();
    text.append(names.as_str());
    Some(text)
}

/// The note given when the selection holds no package.
pub open spec fn selection_note_spec(selected: Seq<PackageView>) -> Option<Seq<char>> {
    if selected.len() == 0 {
        Some("no compatible packages selected"@)
    } else {
        None
    }
}

/// The note on the selection of packages: there is one only when it is
/// empty.
pub fn selection_note(selected: &Vec<Package>) -> (res: Option<String>)
    ensures
        match res {
            Some(text) => selection_note_spec(packages_view(selected@)) == Some(text@),
            None => selection_note_spec(packages_view(selected@)) is None,
        },
{
    if selected.len() == 0 {
        Some("no compatible packages selected".to_owned())
    } else {
        None
    }
}

/// The status line of a package: the word "Changes", and "for" with its
/// quoted name.
pub open spec fn package_status_spec(pkg: PackageView) -> (Seq<char>, Seq<char>) {
    ("Changes"@, "for "@ + ticked(pkg.0))
}

/// The status line of a package, as a status word and a message.
pub fn package_status(pkg: &Package) -> (res: (String, String))
    ensures
        (res.0@, res.1@) == package_status_spec(pkg@),
{
    let mut message = "for ".to_owned();
    let name = ticked_name(pkg);
    message.append(name.as_str());
    ("Changes".to_owned(), message)
}

/// The status line of every selected package is the word `Changes` and
/// `for `, then the package's name exactly as it is, between backticks: the
/// name starts at the sixth character and fills all but the last one.
pub proof fn law_status_names_the_package(pkg: PackageView)
    ensures
        package_status_spec(pkg).0 == "Changes"@,
        package_status_spec(pkg).1 == "for "@ + "`"@ + pkg.0 + "`"@,
        package_status_spec(pkg).1.len() == pkg.0.len() + "for "@.len() + 2,
        package_status_spec(pkg).1.subrange("for "@.len() + 1int, "for "@.len() + 1int + pkg.0.len()) == pkg.0,
{
    let m = package_status_spec(pkg).1;
    assert(m =~= "for "@ + "`"@ + pkg.0 + "`"@);
    reveal_strlit("`");
    assert(m.subrange("for "@.len() + 1int, "for "@.len() + 1int + pkg.0.len()) =~= pkg.0);
}

/// The note on the selection is given exactly when the selection is empty,
/// and then it says that no compatible package was selected.
pub proof fn law_selection_note_only_when_empty(selected: Seq<PackageView>)
    ensures
        selection_note_spec(selected) is Some <==> selected.len() == 0,
        selected.len() == 0 ==> selection_note_spec(selected) == Some("no compatible packages selected"@),
{
}

/// The quoted names are the packages' names, each unchanged between
/// backticks, one for each package and in the same order.
pub proof fn law_quoted_names(pkgs: Seq<PackageView>)
    ensures
        ticked_names(pkgs).len() == pkgs.len(),
        forall|i: int| 0 <= i < pkgs.len() ==> #[trigger] ticked_names(pkgs)[i] == "`"@ + pkgs[i].0 + "`"@,
    decreases pkgs.len(),
{
    if pkgs.len() > 0 {
        law_quoted_names(pkgs.drop_last());
        assert forall|i: int| 0 <= i < pkgs.len() implies #[trigger] ticked_names(pkgs)[i] == "`"@ + pkgs[i].0 + "`"@ by {
            if i < pkgs.len() - 1 {
                assert(ticked_names(pkgs)[i] == ticked_names(pkgs.drop_last())[i]);
                assert(pkgs.drop_last()[i] == pkgs[i]);
            }
        }
    }
}

/// The note on the excluded packages is absent exactly when none was
/// excluded; otherwise it is `ignoring changes for ` followed by the names,
/// quoted, of the excluded packages whose manifest sets no `publish` list or
/// lists `crates-io`, in their order, joined by `, `.
pub proof fn law_excluded_note_names_publishable_packages(excluded: Seq<PackageView>)
    ensures
        excluded_note_spec(excluded) is None <==> excluded.len() == 0,
        excluded.len() > 0 ==> excluded_note_spec(excluded) == Some("ignoring changes for "@ + joined(
            ticked_names(excluded.filter(|p: PackageView| match p.2 {
                None => true,
                Some(r) => exists|k: int| 0 <= k < r.len() && r[k] == "crates-io"@,
            })),
            ", "@,
        )),
{
    law_kept_packages_are_the_publishable_ones(excluded);
}

} // verus!
