//! Semantic versions and the bump policy.
use crate::error::ContaError;
use vstd::prelude::*;
use vstd::string::*;

verus! {

/// What `semver::Version::parse` makes of a text: `None` where it is not a
/// version, else its major, minor and patch numbers, its pre-release and its
/// build metadata.
pub uninterp spec fn semver_fields(text: Seq<char>) -> Option<(u64, u64, u64, Seq<char>, Seq<char>)>;

/// A semantic version: `MAJOR.MINOR.PATCH`, with an optional pre-release and
/// build metadata, each kept as the text that follows `-` or `+`.
#[derive(Debug, Clone, PartialEq, Eq)]
pub struct SemVer {
    pub major: u64,
    pub minor: u64,
    pub patch: u64,
    pub pre: String,
    pub build: String,
}

/// The mathematical value of a [`SemVer`].
pub ghost struct SemVerView {
    pub major: u64,
    pub minor: u64,
    pub patch: u64,
    pub pre: Seq<char>,
    pub build: Seq<char>,
}

impl View for SemVer {
    type V = SemVerView;

    open spec fn view(&self) -> SemVerView {
        SemVerView {
            major: self.major,
            minor: self.minor,
            patch: self.patch,
            pre: self.pre@,
            build: self.build@,
        }
    }
}

/// The version whose parts the parser reported.
pub open spec fn view_of_fields(f: (u64, u64, u64, Seq<char>, Seq<char>)) -> SemVerView {
    SemVerView { major: f.0, minor: f.1, patch: f.2, pre: f.3, build: f.4 }
}

/// The character of a decimal digit.
pub open spec fn digit_char(d: nat) -> char {
    if d == 0 { '0' }
    else if d == 1 { '1' }
    else if d == 2 { '2' }
    else if d == 3 { '3' }
    else if d == 4 { '4' }
    else if d == 5 { '5' }
    else if d == 6 { '6' }
    else if d == 7 { '7' }
    else if d == 8 { '8' }
    else { '9' }
}

/// The decimal digits of `n`, without leading zeros.
pub open spec fn decimal(n: nat) -> Seq<char>
    decreases n,
{
    if n < 10 {
        seq![digit_char(n)]
    } else {
        decimal(n / 10) + seq![digit_char(n % 10)]
    }
}

/// The canonical text of a version: `MAJOR.MINOR.PATCH`, then `-` and the
/// pre-release if there is one, then `+` and the build metadata if there is
/// some.
pub open spec fn version_text(v: SemVerView) -> Seq<char> {
    let core = decimal(v.major as nat) + seq!['.'] + decimal(v.minor as nat) + seq!['.']
        + decimal(v.patch as nat);
    let with_pre = if v.pre.len() == 0 { core } else { core + seq!['-'] + v.pre };
    if v.build.len() == 0 { with_pre } else { with_pre + seq!['+'] + v.build }
}

/// `a` comes before `b` by their numeric parts, compared in the order major,
/// minor, patch. Semantic-version precedence decides by these parts first, so
/// `a` then has lower precedence than `b` whatever their pre-releases.
pub open spec fn precedes_by_numbers(a: SemVerView, b: SemVerView) -> bool {
    a.major < b.major
    || (a.major == b.major && a.minor < b.minor)
    || (a.major == b.major && a.minor == b.minor && a.patch < b.patch)
}

/// Relies on `semver::Version::parse`: whether the text is a version, and
/// its five parts when it is.
#[verifier::external_body]
fn parse_semver(text: &str) -> (r: Result<SemVer, semver::Error>)
    ensures
        r is Ok <==> semver_fields(text@) is Some,
        r matches Ok(v) ==> semver_fields(text@) == Some((v.major, v.minor, v.patch, v.pre@, v.build@)),
{
    semver::Version::parse(text).map(|v| SemVer {
        major: v.major,
        minor: v.minor,
        patch: v.patch,
        pre: v.pre.as_str().to_string(),
        build: v.build.as_str().to_string(),
    })
}

/// The text of one decimal digit.
fn digit_str(d: u64) -> (r: &'static str)
    requires
        d < 10,
    ensures
        r@ == seq![digit_char(d as nat)],
{
    proof {
        reveal_strlit("0");
        reveal_strlit("1");
        reveal_strlit("2");
        reveal_strlit("3");
        reveal_strlit("4");
        reveal_strlit("5");
        reveal_strlit("6");
        reveal_strlit("7");
        reveal_strlit("8");
        reveal_strlit("9");
    }
    if d == 0 { "0" }
    else if d == 1 { "1" }
    else if d == 2 { "2" }
    else if d == 3 { "3" }
    else if d == 4 { "4" }
    else if d == 5 { "5" }
    else if d == 6 { "6" }
    else if d == 7 { "7" }
    else if d == 8 { "8" }
    else { "9" }
}

/// The decimal digits of `n`.
fn decimal_string(n: u64) -> (r: String)
    ensures
        r@ == decimal(n as nat),
{
    let mut m: u64 = n;
    let mut tail = String::new();
    assert(tail@ =~= Seq::<char>::empty());
    while m >= 10
        invariant
            decimal(n as nat) == decimal(m as nat) + tail@,
        decreases m,
    {
        let d = digit_str(m % 10);
        let head = String::from_str(d);
        let ghost old_tail = tail@;
        tail = head.concat(tail.as_str());
        proof {
            assert(decimal(m as nat) == decimal((m / 10) as nat) + seq![digit_char((m % 10) as nat)]);
            assert(decimal(m as nat) + old_tail =~= decimal((m / 10) as nat) + tail@);
        }
        m = m / 10;
    }
    let head = String::from_str(digit_str(m));
    let r = head.concat(tail.as_str());
    assert(r@ =~= decimal(n as nat));
    r
}

#[verifier::external_type_specification]
#[verifier::external_body]
pub struct ExSemverError(semver::Error);

impl SemVer {
    /// Parses a semantic version, as the `semver` crate reads one.
    pub fn parse(text: &str) -> (r: Result<SemVer, ContaError>)
        ensures
            match semver_fields(text@) {
                Some(f) => r matches Ok(v) && v@ == view_of_fields(f),
                None => r matches Err(ContaError::Parse(s)) && s@ == text@,
            },
    {
        match parse_semver(text) {
            Ok(v) => Ok(v),
            Err(_) => Err(ContaError::Parse(String::from_str(text))),
        }
    }

    /// The canonical text of this version.
    pub fn to_text(&self) -> (r: String)
        ensures
            r@ == version_text(self@),
    {
        proof {
            reveal_strlit(".");
            reveal_strlit("-");
            reveal_strlit("+");
        }
        let mut s = decimal_string(self.major);
        s.append(".");
        let minor = decimal_string(self.minor);
        s.append(minor.as_str());
        s.append(".");
        let patch = decimal_string(self.patch);
        s.append(patch.as_str());
        if self.pre.as_str().unicode_len() != 0 {
            s.append("-");
            s.append(self.pre.as_str());
        }
        if self.build.as_str().unicode_len() != 0 {
            s.append("+");
            s.append(self.build.as_str());
        }
        assert(s@ == version_text(self@));
        s
    }
}

/// How a bump maps the current version to the new one.
#[derive(Debug, Clone, PartialEq, Eq)]
pub enum Bump {
    /// Adds one to the patch number.
    Patch,
    /// Adds one to the minor number; the patch number stays.
    Minor,
    /// Adds one to the major number; minor and patch numbers stay.
    Major,
    /// Replaces the version with the one given.
    Version(SemVer),
}

/// The version that `b` makes of `v`; `None` where the number to raise is
/// already `u64::MAX`.
pub open spec fn bumped(b: Bump, v: SemVerView) -> Option<SemVerView> {
    match b {
        Bump::Patch => if v.patch < u64::MAX {
            Some(SemVerView { patch: (v.patch + 1) as u64, ..v })
        } else {
            None
        },
        Bump::Minor => if v.minor < u64::MAX {
            Some(SemVerView { minor: (v.minor + 1) as u64, ..v })
        } else {
            None
        },
        Bump::Major => if v.major < u64::MAX {
            Some(SemVerView { major: (v.major + 1) as u64, ..v })
        } else {
            None
        },
        Bump::Version(w) => Some(w@),
    }
}

/// Whether the two texts hold the same characters.
fn same_text(a: &str, b: &str) -> (r: bool)
    ensures
        r == (a@ == b@),
{
    let n = a.unicode_len();
    if n != b.unicode_len() {
        return false;
    }
    let mut i: usize = 0;
    while i < n
        invariant
            n == a@.len(),
            n == b@.len(),
            i <= n,
            a@.subrange(0, i as int) == b@.subrange(0, i as int),
        decreases n - i,
    {
        if a.get_char(i) != b.get_char(i) {
            return false;
        }
        assert(a@.subrange(0, i + 1) == a@.subrange(0, i as int).push(a@[i as int]));
        assert(b@.subrange(0, i + 1) == b@.subrange(0, i as int).push(b@[i as int]));
        i = i + 1;
    }
    assert(a@ == a@.subrange(0, n as int));
    assert(b@ == b@.subrange(0, n as int));
    true
}

impl Bump {
    /// Reads a bump from the command line: `patch`, `minor` and `major` name
    /// those bumps, and any other text must be a version to set.
    pub fn from_str(s: &str) -> (r: Result<Bump, ContaError>)
        ensures
            s@ == "patch"@ ==> r == Ok::<Bump, ContaError>(Bump::Patch),
            s@ == "minor"@ ==> r == Ok::<Bump, ContaError>(Bump::Minor),
            s@ == "major"@ ==> r == Ok::<Bump, ContaError>(Bump::Major),
            s@ != "patch"@ && s@ != "minor"@ && s@ != "major"@ ==> match semver_fields(s@) {
                Some(f) => r matches Ok(Bump::Version(v)) && v@ == view_of_fields(f),
                None => r matches Err(ContaError::Parse(t)) && t@ == s@,
            },
    {
        proof {
            reveal_strlit("patch");
            reveal_strlit("minor");
            reveal_strlit("major");
            assert("minor"@[0] != "patch"@[0]);
            assert("major"@[0] != "patch"@[0]);
            assert("major"@[1] != "minor"@[1]);
        }
        if same_text(s, "patch") {
            Ok(Bump::Patch)
        } else if same_text(s, "minor") {
            Ok(Bump::Minor)
        } else if same_text(s, "major") {
            Ok(Bump::Major)
        } else {
            match SemVer::parse(s) {
                Ok(v) => Ok(Bump::Version(v)),
                Err(e) => Err(e),
            }
        }
    }

    /// Computes the new version from the current version's text.
    ///
    /// The text must be a version; a bump of a number that is already
    /// `u64::MAX` fails with [`ContaError::Overflow`].
    pub fn run(&self, version: &str) -> (r: Result<SemVer, ContaError>)
        ensures
            match semver_fields(version@) {
                None => r matches Err(ContaError::Parse(s)) && s@ == version@,
                Some(f) => match bumped(*self, view_of_fields(f)) {
                    Some(w) => r matches Ok(v) && v@ == w,
                    None => r == Err::<SemVer, ContaError>(ContaError::Overflow),
                },
            },
    {
        let current = match SemVer::parse(version) {
            Ok(v) => v,
            Err(e) => return Err(e),
        };
        match self {
            Bump::Patch => {
                if current.patch == u64::MAX {
                    return Err(ContaError::Overflow);
                }
                Ok(SemVer { patch: current.patch + 1, ..current })
            },
            Bump::Minor => {
                if current.minor == u64::MAX {
                    return Err(ContaError::Overflow);
                }
                Ok(SemVer { minor: current.minor + 1, ..current })
            },
            Bump::Major => {
                if current.major == u64::MAX {
                    return Err(ContaError::Overflow);
                }
                Ok(SemVer { major: current.major + 1, ..current })
            },
            Bump::Version(target) => Ok(SemVer {
                major: target.major,
                minor: target.minor,
                patch: target.patch,
                pre: target.pre.clone(),
                build: target.build.clone(),
            }),
        }
    }
}

/// A patch, minor or major bump raises exactly the number it targets by one,
/// keeps the other two numbers, and yields a version of higher precedence.
pub proof fn lemma_bump_raises_one_number(b: Bump, v: SemVerView)
    requires
        !(b is Version),
        b is Patch ==> v.patch < u64::MAX,
        b is Minor ==> v.minor < u64::MAX,
        b is Major ==> v.major < u64::MAX,
    ensures
        bumped(b, v) is Some,
        ({
            let w = bumped(b, v)->Some_0;
            &&& b is Patch ==> w.major == v.major && w.minor == v.minor && w.patch == v.patch + 1
            &&& b is Minor ==> w.major == v.major && w.minor == v.minor + 1 && w.patch == v.patch
            &&& b is Major ==> w.major == v.major + 1 && w.minor == v.minor && w.patch == v.patch
            &&& w.pre == v.pre && w.build == v.build
            &&& precedes_by_numbers(v, w)
        }),
{
}

/// An explicit bump yields the version it carries, whatever the current one.
pub proof fn lemma_explicit_bump_ignores_current(w: SemVer, v: SemVerView)
    ensures
        bumped(Bump::Version(w), v) == Some(w@),
{
}

} // verus!
