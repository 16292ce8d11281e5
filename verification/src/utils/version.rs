//! Semantic versions, parsed and compared by the `semver` crate.

use vstd::prelude::*;

verus! {

#[verifier::external_type_specification]
#[verifier::external_body]
pub struct ExSemverVersion(semver::Version);


/// A version as the contracts see it: major, minor and patch numbers, then
/// the pre-release and the build metadata texts (empty when absent).
pub type VersionView = (u64, u64, u64, Seq<char>, Seq<char>);

/// What `semver::Version::parse` gives for a text: `None` where it refuses
/// the text, else the parts of the version.
pub uninterp spec fn semver_parse(text: Seq<char>) -> Option<(u64, u64, u64, Seq<char>, Seq<char>)>;

/// The sign (-1, 0 or 1) of `semver::Prerelease::cmp` on two pre-release texts.
pub uninterp spec fn semver_prerelease_order(a: Seq<char>, b: Seq<char>) -> i8;

/// The sign (-1, 0 or 1) of `semver::BuildMetadata::cmp` on two build metadata texts.
pub uninterp spec fn semver_build_order(a: Seq<char>, b: Seq<char>) -> i8;

/// A semantic version. It is only made by [`SemVer::parse`], so its parts
/// always agree with the parsed value that it keeps for comparisons.
pub struct SemVer {
    major: u64,
    minor: u64,
    patch: u64,
    pre: String,
    build: String,
    parsed: semver::Version,
}

impl View for SemVer {
    type V = VersionView;

    closed spec fn view(&self) -> VersionView {
        (self.major, self.minor, self.patch, self.pre@, self.build@)
    }
}

/// The order of `semver::Version`, as a sign: its fields are compared in
/// turn, major, minor and patch as numbers, then the pre-release, then the
/// build metadata.
pub open spec fn version_order(a: VersionView, b: VersionView) -> i8 {
    if a.0 != b.0 {
        if a.0 < b.0 { -1i8 } else { 1i8 }
    } else if a.1 != b.1 {
        if a.1 < b.1 { -1i8 } else { 1i8 }
    } else if a.2 != b.2 {
        if a.2 < b.2 { -1i8 } else { 1i8 }
    } else if semver_prerelease_order(a.3, b.3) != 0 {
        semver_prerelease_order(a.3, b.3)
    } else {
        semver_build_order(a.4, b.4)
    }
}

/// `a <= b` in the order of `semver::Version`.
pub open spec fn version_le(a: VersionView, b: VersionView) -> bool {
    version_order(a, b) <= 0
}

/// `a <= b` on the release numbers alone (major, then minor, then patch).
pub open spec fn release_le(a: VersionView, b: VersionView) -> bool {
    ||| a.0 < b.0
    ||| a.0 == b.0 && a.1 < b.1
    ||| a.0 == b.0 && a.1 == b.1 && a.2 <= b.2
}

/// The two versions have the same major, minor and patch numbers.
pub open spec fn same_release(a: VersionView, b: VersionView) -> bool {
    a.0 == b.0 && a.1 == b.1 && a.2 == b.2
}

/// How two versions compare, part by part: by the first release number
/// (major, minor, patch) in which they differ; with the same release
/// numbers, by semver's pre-release order wherever that tells them apart,
/// whatever the lengths of the pre-release texts; otherwise by semver's
/// order of build metadata.
pub proof fn law_version_order_by_parts(a: VersionView, b: VersionView)
    ensures
        a.0 < b.0 ==> version_order(a, b) == -1,
        a.0 > b.0 ==> version_order(a, b) == 1,
        a.0 == b.0 && a.1 < b.1 ==> version_order(a, b) == -1,
        a.0 == b.0 && a.1 > b.1 ==> version_order(a, b) == 1,
        a.0 == b.0 && a.1 == b.1 && a.2 < b.2 ==> version_order(a, b) == -1,
        a.0 == b.0 && a.1 == b.1 && a.2 > b.2 ==> version_order(a, b) == 1,
        same_release(a, b) && semver_prerelease_order(a.3, b.3) != 0
            ==> version_order(a, b) == semver_prerelease_order(a.3, b.3),
        same_release(a, b) && semver_prerelease_order(a.3, b.3) == 0
            ==> version_order(a, b) == semver_build_order(a.4, b.4),
        version_le(a, b) <==> version_order(a, b) <= 0,
{
}

/// Versions with different release numbers are ordered by them alone, major
/// first, then minor, then patch; pre-release and build metadata only
/// decide between versions of the same release.
pub proof fn law_release_numbers_come_first(a: VersionView, b: VersionView)
    requires
        !same_release(a, b),
    ensures
        version_le(a, b) == release_le(a, b),
        version_le(a, b) != version_le(b, a),
{
}

/// `semver::Prerelease`'s order is total, as its documentation says: the
/// order of two texts is the reverse of their order the other way round, and
/// it is transitive.
pub open spec fn prerelease_order_is_total() -> bool {
    &&& forall|a: Seq<char>, b: Seq<char>| #[trigger] semver_prerelease_order(a, b) == -semver_prerelease_order(b, a)
    &&& forall|a: Seq<char>, b: Seq<char>, c: Seq<char>|
        #![trigger semver_prerelease_order(a, b), semver_prerelease_order(b, c)]
        semver_prerelease_order(a, b) <= 0 && semver_prerelease_order(b, c) <= 0
            ==> semver_prerelease_order(a, c) <= 0
}

/// `semver::BuildMetadata`'s order is total, as its documentation says.
pub open spec fn build_order_is_total() -> bool {
    &&& forall|a: Seq<char>, b: Seq<char>| #[trigger] semver_build_order(a, b) == -semver_build_order(b, a)
    &&& forall|a: Seq<char>, b: Seq<char>, c: Seq<char>|
        #![trigger semver_build_order(a, b), semver_build_order(b, c)]
        semver_build_order(a, b) <= 0 && semver_build_order(b, c) <= 0
            ==> semver_build_order(a, c) <= 0
}

/// Where the orders of pre-releases and of build metadata are total, so is
/// the order of versions: swapping two versions reverses their order, and
/// `version_le` is transitive.
pub proof fn law_version_order_is_total(a: VersionView, b: VersionView, c: VersionView)
    requires
        prerelease_order_is_total(),
        build_order_is_total(),
    ensures
        version_order(a, b) == -version_order(b, a),
        version_le(a, b) || version_le(b, a),
        version_le(a, b) && version_le(b, c) ==> version_le(a, c),
{
    let pab = semver_prerelease_order(a.3, b.3);
    let pba = semver_prerelease_order(b.3, a.3);
    let pbc = semver_prerelease_order(b.3, c.3);
    let pcb = semver_prerelease_order(c.3, b.3);
    let pac = semver_prerelease_order(a.3, c.3);
    let pca = semver_prerelease_order(c.3, a.3);
    let bab = semver_build_order(a.4, b.4);
    let bba = semver_build_order(b.4, a.4);
    let bbc = semver_build_order(b.4, c.4);
    let bcb = semver_build_order(c.4, b.4);
    let bac = semver_build_order(a.4, c.4);
    let bca = semver_build_order(c.4, a.4);
    // the instances of the order laws that the three versions need
    assert(pab <= 0 && pbc <= 0 ==> pac <= 0);
    assert(pcb <= 0 && pba <= 0 ==> pca <= 0);
    assert(pac <= 0 && pcb <= 0 ==> pab <= 0);
    assert(pba <= 0 && pac <= 0 ==> pbc <= 0);
    assert(bab <= 0 && bbc <= 0 ==> bac <= 0);
    assert(bcb <= 0 && bba <= 0 ==> bca <= 0);
    assert(bac <= 0 && bcb <= 0 ==> bab <= 0);
    assert(bba <= 0 && bac <= 0 ==> bbc <= 0);
}

/// `semver::Version::parse`, keeping the parts of the version beside it.
#[verifier::external_body]
fn parse_semver(text: &str) -> (res: Option<SemVer>)
    ensures
        match res {
            Some(v) => semver_parse(text@) == Some(v@),
            None => semver_parse(text@) is None,
        },
{
    match semver::Version::parse(text) {
        Ok(v) => Some(SemVer {
            major: v.major,
            minor: v.minor,
            patch: v.patch,
            pre: v.pre.as_str().to_string(),
            build: v.build.as_str().to_string(),
            parsed: v,
        }),
        Err(_) => None,
    }
}

/// `semver::Prerelease::cmp` on the pre-releases of two versions, as a sign.
/// Swapping the two reverses the order, equal texts compare equal, and a
/// version without pre-release comes after one with a pre-release.
#[verifier::external_body]
fn prerelease_order(a: &SemVer, b: &SemVer) -> (res: i8)
    ensures
        res == semver_prerelease_order(a@.3, b@.3),
        res == -semver_prerelease_order(b@.3, a@.3),
        -1 <= res <= 1,
        a@.3 == b@.3 ==> res == 0,
        a@.3.len() == 0 && b@.3.len() != 0 ==> res == 1,
        a@.3.len() != 0 && b@.3.len() == 0 ==> res == -1,
{
    match a.parsed.pre.cmp(&b.parsed.pre) {
        std::cmp::Ordering::Less => -1,
        std::cmp::Ordering::Equal => 0,
        std::cmp::Ordering::Greater => 1,
    }
}

/// `semver::BuildMetadata::cmp` on the build metadata of two versions, as a
/// sign. Swapping the two reverses the order, and equal texts compare equal.
#[verifier::external_body]
fn build_order(a: &SemVer, b: &SemVer) -> (res: i8)
    ensures
        res == semver_build_order(a@.4, b@.4),
        res == -semver_build_order(b@.4, a@.4),
        -1 <= res <= 1,
        a@.4 == b@.4 ==> res == 0,
{
    match a.parsed.build.cmp(&b.parsed.build) {
        std::cmp::Ordering::Less => -1,
        std::cmp::Ordering::Equal => 0,
        std::cmp::Ordering::Greater => 1,
    }
}

/// The sign of `a` compared with `b`.
fn number_order(a: u64, b: u64) -> (res: i8)
    ensures
        res == (if a == b { 0i8 } else if a < b { -1i8 } else { 1i8 }),
{
    if a == b {
        0
    } else if a < b {
        -1
    } else {
        1
    }
}

impl SemVer {
    /// Parses a version the way `semver::Version::parse` does; `None` where
    /// it refuses the text.
    pub fn parse(text: &str) -> (res: Option<SemVer>)
        ensures
            match res {
                Some(v) => semver_parse(text@) == Some(v@),
                None => semver_parse(text@) is None,
            },
    {
        parse_semver(text)
    }

    /// The major version number.
    pub fn major(&self) -> (res: u64)
        ensures
            res == self@.0,
    {
        self.major
    }

    /// The minor version number.
    pub fn minor(&self) -> (res: u64)
        ensures
            res == self@.1,
    {
        self.minor
    }

    /// The patch number.
    pub fn patch(&self) -> (res: u64)
        ensures
            res == self@.2,
    {
        self.patch
    }

    /// The pre-release text, empty for a release.
    pub fn pre(&self) -> (res: &str)
        ensures
            res@ == self@.3,
    {
        self.pre.as_str()
    }

    /// The build metadata text, empty where there is none.
    pub fn build(&self) -> (res: &str)
        ensures
            res@ == self@.4,
    {
        self.build.as_str()
    }

    /// Compares two versions in the order of `semver::Version`: -1 when
    /// `self` comes first, 0 when neither does, 1 when `other` comes first.
    pub fn order(&self, other: &SemVer) -> (res: i8)
        ensures
            res == version_order(self@, other@),
            -1 <= res <= 1,
            // a version compares equal to one with the same parts
            self@ == other@ ==> res == 0,
            // with the same release numbers, a release comes after a pre-release
            same_release(self@, other@) && self@.3.len() == 0 && other@.3.len() != 0 ==> res == 1,
            same_release(self@, other@) && self@.3.len() != 0 && other@.3.len() == 0 ==> res == -1,
    {
        let by_major = number_order(self.major, other.major);
        if by_major != 0 {
            return by_major;
        }
        let by_minor = number_order(self.minor, other.minor);
        if by_minor != 0 {
            return by_minor;
        }
        let by_patch = number_order(self.patch, other.patch);
        if by_patch != 0 {
            return by_patch;
        }
        let by_pre = prerelease_order(self, other);
        if by_pre != 0 {
            return by_pre;
        }
        build_order(self, other)
    }

    /// `self <= other` in the order of `semver::Version`.
    pub fn le(&self, other: &SemVer) -> (res: bool)
        ensures
            res == version_le(self@, other@),
            self@ == other@ ==> res,
            same_release(self@, other@) && self@.3.len() != 0 && other@.3.len() == 0 ==> res,
            same_release(self@, other@) && self@.3.len() == 0 && other@.3.len() != 0 ==> !res,
    {
        self.order(other) <= 0
    }
}

} // verus!
