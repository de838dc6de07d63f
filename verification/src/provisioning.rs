//! Artifact descriptors: what can be deployed onto the classpath of a
//! runtime, and the plan that brings it there.
//!
//! Resolving and copying artifacts is the work of a collaborator outside the
//! library. The library parses the descriptors, says what is to be fetched or
//! copied, and records the outcome.

use vstd::prelude::*;
use vstd::string::StringExecFns;
use vstd::string::StrSliceExecFns;

verus! {

/// Whether the text has the two-character separator `::` at `i`.
pub open spec fn is_separator_at(s: Seq<char>, i: int) -> bool {
    0 <= i && i + 1 < s.len() && s[i] == ':' && s[i + 1] == ':'
}

/// Whether `i` is the first place where the text has the separator `::`.
pub open spec fn is_first_separator(s: Seq<char>, i: int) -> bool {
    is_separator_at(s, i) && forall|j: int| 0 <= j < i ==> !is_separator_at(s, j)
}

/// The text before the first `::`, or the whole text where there is none.
pub open spec fn before_separator(s: Seq<char>) -> Seq<char> {
    if exists|i: int| is_first_separator(s, i) {
        s.take(choose|i: int| is_first_separator(s, i))
    } else {
        s
    }
}

/// The text after the first `::`, or nothing where there is none.
pub open spec fn after_separator(s: Seq<char>) -> Seq<char> {
    if exists|i: int| is_first_separator(s, i) {
        s.skip((choose|i: int| is_first_separator(s, i)) + 2)
    } else {
        Seq::empty()
    }
}

/// The first place where the text has the separator `::`.
pub fn find_separator(s: &str) -> (r: Option<usize>)
    ensures
        match r {
            Some(i) => is_first_separator(s@, i as int) && before_separator(s@) == s@.take(i as int)
                && after_separator(s@) == s@.skip(i as int + 2),
            None => !(exists|i: int| is_first_separator(s@, i)) && before_separator(s@) == s@
                && after_separator(s@) == Seq::<char>::empty(),
        },
{
    let n = s.unicode_len();
    let mut i: usize = 0;
    while n > 0 && i < n - 1
        invariant
            n == s@.len(),
            i <= n,
            forall|j: int| 0 <= j < i ==> !is_separator_at(s@, j),
        decreases n - i,
    {
        if s.get_char(i) == ':' && s.get_char(i + 1) == ':' {
            proof {
                assert(is_first_separator(s@, i as int));
                let k = choose|k: int| is_first_separator(s@, k);
                assert(is_first_separator(s@, k));
                if k < i {
                    assert(!is_separator_at(s@, k));
                } else if i < k {
                    assert(!is_separator_at(s@, i as int));
                }
            }
            return Some(i);
        }
        i += 1;
    }
    proof {
        assert forall|k: int| !is_first_separator(s@, k) by {
            if is_separator_at(s@, k) {
                assert(k < i);
            }
        }
    }
    None
}

/// Whether the text has the character `c` at `i`, and not after it.
pub open spec fn is_last_at(s: Seq<char>, c: char, i: int) -> bool {
    0 <= i < s.len() && s[i] == c && forall|j: int| i < j < s.len() ==> s[j] != c
}

/// The text after the last `c`, or the whole text where there is none.
pub open spec fn after_last(s: Seq<char>, c: char) -> Seq<char> {
    if exists|i: int| is_last_at(s, c, i) {
        s.skip((choose|i: int| is_last_at(s, c, i)) + 1)
    } else {
        s
    }
}

/// The text of `s` after its last `c`.
pub fn text_after_last(s: &str, c: char) -> (r: String)
    ensures
        r@ == after_last(s@, c),
{
    let n = s.unicode_len();
    let mut i: usize = n;
    while i > 0
        invariant
            n == s@.len(),
            i <= n,
            forall|j: int| i <= j < n ==> s@[j] != c,
        decreases i,
    {
        if s.get_char(i - 1) == c {
            proof {
                assert(is_last_at(s@, c, i as int - 1));
                let k = choose|k: int| is_last_at(s@, c, k);
                assert(is_last_at(s@, c, k));
                assert(k == i - 1);
                assert(s@.subrange(i as int, n as int) =~= s@.skip(i as int));
            }
            return String::from_str(s.substring_char(i, n));
        }
        i -= 1;
    }
    proof {
        assert forall|k: int| !is_last_at(s@, c, k) by {
            if 0 <= k < n {
                assert(s@[k] != c);
            }
        }
    }
    String::from_str(s)
}

/// An artifact of a maven-style repository.
#[derive(Debug)]
pub struct MavenArtifact {
    pub group: String,
    pub id: String,
    pub version: String,
    pub qualifier: String,
}

/// The mathematical model of a [`MavenArtifact`].
pub struct MavenArtifactModel {
    pub group: Seq<char>,
    pub id: Seq<char>,
    pub version: Seq<char>,
    pub qualifier: Seq<char>,
}

impl View for MavenArtifact {
    type V = MavenArtifactModel;

    open spec fn view(&self) -> MavenArtifactModel {
        MavenArtifactModel {
            group: self.group@,
            id: self.id@,
            version: self.version@,
            qualifier: self.qualifier@,
        }
    }
}

/// The part of a coordinate at `index`, or nothing where the coordinate has
/// fewer parts.
pub open spec fn part_at(parts: Seq<Seq<char>>, index: int) -> Seq<char> {
    if 0 <= index < parts.len() {
        parts[index]
    } else {
        Seq::empty()
    }
}

/// The artifact that the coordinate `group:id:version:qualifier` names.
/// Parts that are missing at the end are empty.
pub open spec fn parse_coordinate(s: Seq<char>) -> MavenArtifactModel {
    let parts = crate::natives::split_text(s, ':');
    MavenArtifactModel {
        group: part_at(parts, 0),
        id: part_at(parts, 1),
        version: part_at(parts, 2),
        qualifier: part_at(parts, 3),
    }
}

/// The name of the jar file of an artifact.
pub open spec fn jar_name(a: MavenArtifactModel) -> Seq<char> {
    if a.qualifier.len() == 0 {
        a.id + "-"@ + a.version + ".jar"@
    } else {
        a.id + "-"@ + a.version + "-"@ + a.qualifier + ".jar"@
    }
}

fn part(parts: &Vec<crate::marshal::Atom>, index: usize) -> (r: String)
    requires
        exists|texts: Seq<Seq<char>>|
            crate::marshal::atoms_model(parts@) == crate::natives::text_atoms(texts),
    ensures
        forall|texts: Seq<Seq<char>>|
            crate::marshal::atoms_model(parts@) == crate::natives::text_atoms(texts) ==> r@
                == part_at(texts, index as int),
{
    if index < parts.len() {
        match &parts[index] {
            crate::marshal::Atom::Text(s) => {
                proof {
                    assert forall|texts: Seq<Seq<char>>|
                        crate::marshal::atoms_model(parts@) == crate::natives::text_atoms(
                            texts,
                        ) implies s@ == part_at(texts, index as int) by {
                        assert(crate::marshal::atoms_model(parts@).len() == texts.len());
                        assert(crate::marshal::atoms_model(parts@)[index as int]
                            == crate::natives::text_atoms(texts)[index as int]);
                    }
                }
                s.clone()
            },
            _ => {
                proof {
                    let texts = choose|texts: Seq<Seq<char>>|
                        crate::marshal::atoms_model(parts@) == crate::natives::text_atoms(texts);
                    assert(crate::marshal::atoms_model(parts@).len() == texts.len());
                    assert(crate::marshal::atoms_model(parts@)[index as int]
                        == crate::natives::text_atoms(texts)[index as int]);
                }
                String::new()
            },
        }
    } else {
        proof {
            assert forall|texts: Seq<Seq<char>>|
                crate::marshal::atoms_model(parts@) == crate::natives::text_atoms(
                    texts,
                ) implies Seq::<char>::empty() == part_at(texts, index as int) by {
                assert(crate::marshal::atoms_model(parts@).len() == texts.len());
            }
        }
        String::new()
    }
}

impl MavenArtifact {
    /// Parses the coordinate `group:id:version:qualifier`.
    pub fn parse(coordinate: &str) -> (a: MavenArtifact)
        ensures
            a@ == parse_coordinate(coordinate@),
    {
        let parts = crate::natives::split(coordinate, ':');
        MavenArtifact {
            group: part(&parts, 0),
            id: part(&parts, 1),
            version: part(&parts, 2),
            qualifier: part(&parts, 3),
        }
    }

    /// The name of the artifact's jar file.
    pub fn file_name(&self) -> (name: String)
        ensures
            name@ == jar_name(self@),
    {
        let mut name = self.id.clone();
        name.append("-");
        name.append(self.version.as_str());
        if self.qualifier.as_str().unicode_len() > 0 {
            name.append("-");
            name.append(self.qualifier.as_str());
        }
        name.append(".jar");
        name
    }
}

impl From<&str> for MavenArtifact {
    fn from(coordinate: &str) -> (a: MavenArtifact)
        ensures
            a@ == parse_coordinate(coordinate@),
    {
        MavenArtifact::parse(coordinate)
    }
}

impl vstd::std_specs::convert::FromSpecImpl<&str> for MavenArtifact {
    open spec fn obeys_from_spec() -> bool {
        false
    }

    open spec fn from_spec(coordinate: &str) -> MavenArtifact {
        arbitrary()
    }
}

/// A jar file on the local file system.
#[derive(Debug)]
pub struct LocalJarArtifact {
    /// The name of the file, without its directories.
    pub base: String,
    pub path: String,
}

impl LocalJarArtifact {
    /// The jar file at `path`.
    pub fn new(path: &str) -> (a: LocalJarArtifact)
        ensures
            a.path@ == path@,
            a.base@ == after_last(path@, '/'),
    {
        LocalJarArtifact { base: text_after_last(path, '/'), path: String::from_str(path) }
    }
}

impl From<&str> for LocalJarArtifact {
    fn from(path: &str) -> (a: LocalJarArtifact)
        ensures
            a.path@ == path@,
            a.base@ == after_last(path@, '/'),
    {
        LocalJarArtifact::new(path)
    }
}

impl vstd::std_specs::convert::FromSpecImpl<&str> for LocalJarArtifact {
    open spec fn obeys_from_spec() -> bool {
        false
    }

    open spec fn from_spec(path: &str) -> LocalJarArtifact {
        arbitrary()
    }
}

/// A maven-style repository.
#[derive(Debug)]
pub struct MavenArtifactRepo {
    pub id: String,
    pub uri: String,
}

impl MavenArtifactRepo {
    /// Parses `id::uri`. The uri ends where a second `::` begins; a text
    /// without `::` is an id without a uri.
    pub fn parse(text: &str) -> (repo: MavenArtifactRepo)
        ensures
            repo.id@ == before_separator(text@),
            repo.uri@ == before_separator(after_separator(text@)),
    {
        let n = text.unicode_len();
        match find_separator(text) {
            None => {
                proof {
                    assert forall|i: int| !is_first_separator(Seq::<char>::empty(), i) by {}
                }
                MavenArtifactRepo { id: String::from_str(text), uri: String::new() }
            },
            Some(i) => {
                let rest = text.substring_char(i + 2, n);
                proof {
                    assert(text@.subrange(0, i as int) =~= text@.take(i as int));
                    assert(text@.subrange(i as int + 2, n as int) =~= text@.skip(i as int + 2));
                }
                let id = String::from_str(text.substring_char(0, i));
                let uri = match find_separator(rest) {
                    None => String::from_str(rest),
                    Some(j) => {
                        proof {
                            assert(rest@.subrange(0, j as int) =~= rest@.take(j as int));
                        }
                        String::from_str(rest.substring_char(0, j))
                    },
                };
                MavenArtifactRepo { id, uri }
            },
        }
    }
}

impl From<&str> for MavenArtifactRepo {
    fn from(text: &str) -> (repo: MavenArtifactRepo)
        ensures
            repo.id@ == before_separator(text@),
            repo.uri@ == before_separator(after_separator(text@)),
    {
        MavenArtifactRepo::parse(text)
    }
}

impl vstd::std_specs::convert::FromSpecImpl<&str> for MavenArtifactRepo {
    open spec fn obeys_from_spec() -> bool {
        false
    }

    open spec fn from_spec(text: &str) -> MavenArtifactRepo {
        arbitrary()
    }
}

/// The mathematical model of a [`MavenArtifactRepo`].
pub struct RepoModel {
    pub id: Seq<char>,
    pub uri: Seq<char>,
}

impl View for MavenArtifactRepo {
    type V = RepoModel;

    open spec fn view(&self) -> RepoModel {
        RepoModel { id: self.id@, uri: self.uri@ }
    }
}

/// The models of a sequence of repositories, position by position.
pub open spec fn repos_model(repos: Seq<MavenArtifactRepo>) -> Seq<RepoModel> {
    Seq::new(repos.len(), |i: int| repos[i]@)
}

/// The repositories artifacts are looked for in, in order.
#[derive(Debug)]
pub struct MavenSettings {
    pub repos: Vec<MavenArtifactRepo>,
}

impl MavenSettings {
    /// Settings with the given repositories.
    pub fn new(repos: Vec<MavenArtifactRepo>) -> (settings: MavenSettings)
        ensures
            settings.repos == repos,
    {
        MavenSettings { repos }
    }

    /// Settings without repositories.
    pub fn empty() -> (settings: MavenSettings)
        ensures
            repos_model(settings.repos@) == Seq::<RepoModel>::empty(),
    {
        let settings = MavenSettings { repos: Vec::new() };
        assert(repos_model(settings.repos@) =~= Seq::<RepoModel>::empty());
        settings
    }
}

/// What can be deployed onto the classpath.
#[derive(Debug)]
pub enum JavaArtifact {
    Maven(MavenArtifact),
    LocalJar(LocalJarArtifact),
}

impl JavaArtifact {
    /// The name of the file the artifact is on the classpath as.
    pub open spec fn staged_name(&self) -> Seq<char> {
        match self {
            JavaArtifact::Maven(a) => jar_name(a@),
            JavaArtifact::LocalJar(a) => a.base@,
        }
    }

    /// Exec twin of [`JavaArtifact::staged_name`].
    pub fn file_name(&self) -> (name: String)
        ensures
            name@ == self.staged_name(),
    {
        match self {
            JavaArtifact::Maven(a) => a.file_name(),
            JavaArtifact::LocalJar(a) => a.base.clone(),
        }
    }
}

/// What is to be done to bring an artifact onto the classpath.
#[derive(Debug)]
pub enum DeployAction {
    /// Fetch the artifact from the first repository that has it.
    Fetch { group: String, id: String, version: String, file_name: String },
    /// Copy the file at `from`.
    Copy { from: String, file_name: String },
}

/// The mathematical model of a [`DeployAction`].
pub enum DeployActionModel {
    Fetch { group: Seq<char>, id: Seq<char>, version: Seq<char>, file_name: Seq<char> },
    Copy { from: Seq<char>, file_name: Seq<char> },
}

impl View for DeployAction {
    type V = DeployActionModel;

    open spec fn view(&self) -> DeployActionModel {
        match self {
            DeployAction::Fetch { group, id, version, file_name } => DeployActionModel::Fetch {
                group: group@,
                id: id@,
                version: version@,
                file_name: file_name@,
            },
            DeployAction::Copy { from, file_name } => DeployActionModel::Copy {
                from: from@,
                file_name: file_name@,
            },
        }
    }
}

/// The action that deploys `artifact`.
pub open spec fn deploy_plan(artifact: JavaArtifact) -> DeployActionModel {
    match artifact {
        JavaArtifact::Maven(a) => DeployActionModel::Fetch {
            group: a.group@,
            id: a.id@,
            version: a.version@,
            file_name: jar_name(a@),
        },
        JavaArtifact::LocalJar(a) => DeployActionModel::Copy { from: a.path@, file_name: a.base@ },
    }
}

/// Says what is to be done to deploy `artifact`.
pub fn plan_deploy(artifact: &JavaArtifact) -> (action: DeployAction)
    ensures
        action@ == deploy_plan(*artifact),
{
    match artifact {
        JavaArtifact::Maven(a) => DeployAction::Fetch {
            group: a.group.clone(),
            id: a.id.clone(),
            version: a.version.clone(),
            file_name: a.file_name(),
        },
        JavaArtifact::LocalJar(a) => DeployAction::Copy {
            from: a.path.clone(),
            file_name: a.base.clone(),
        },
    }
}

} // verus!
