//! The construction surface: the configuration a runtime is created from.

use vstd::prelude::*;
use vstd::string::StringExecFns;
use crate::errors::J4RsError;
use crate::jvm::Jvm;
use crate::model::JvmModel;
use crate::library::{standard_classes, standard_library};
use crate::provisioning::{MavenSettings, RepoModel, repos_model};

verus! {

/// One entry of the classpath.
#[derive(Debug)]
pub struct ClasspathEntry {
    path: String,
}

impl View for ClasspathEntry {
    type V = Seq<char>;

    closed spec fn view(&self) -> Seq<char> {
        self.path@
    }
}

impl ClasspathEntry {
    /// The classpath entry `path`.
    pub fn new(path: &str) -> (entry: ClasspathEntry)
        ensures
            entry@ == path@,
    {
        ClasspathEntry { path: String::from_str(path) }
    }

    /// The entry as text.
    pub fn to_string(&self) -> (s: String)
        ensures
            s@ == self@,
    {
        self.path.clone()
    }
}

/// One startup option of the runtime.
#[derive(Debug)]
pub struct JavaOpt {
    opt: String,
}

impl View for JavaOpt {
    type V = Seq<char>;

    closed spec fn view(&self) -> Seq<char> {
        self.opt@
    }
}

impl JavaOpt {
    /// The startup option `opt`.
    pub fn new(opt: &str) -> (option: JavaOpt)
        ensures
            option@ == opt@,
    {
        JavaOpt { opt: String::from_str(opt) }
    }

    /// The option as text.
    pub fn to_string(&self) -> (s: String)
        ensures
            s@ == self@,
    {
        self.opt.clone()
    }
}

/// The texts of a sequence of classpath entries.
pub open spec fn entries_text(entries: Seq<ClasspathEntry>) -> Seq<Seq<char>> {
    Seq::new(entries.len(), |i: int| entries[i]@)
}

/// The texts of a sequence of startup options.
pub open spec fn opts_text(opts: Seq<JavaOpt>) -> Seq<Seq<char>> {
    Seq::new(opts.len(), |i: int| opts[i]@)
}

/// Collects the configuration of a runtime and creates it.
#[derive(Debug)]
pub struct JvmBuilder {
    classpath: Vec<String>,
    java_opts: Vec<String>,
    settings: MavenSettings,
    owner: u64,
    clock: i64,
}

/// The mathematical model of a [`JvmBuilder`].
pub struct BuilderModel {
    pub classpath: Seq<Seq<char>>,
    pub java_opts: Seq<Seq<char>>,
    pub repos: Seq<RepoModel>,
    pub owner: u64,
    pub clock: i64,
}

impl View for JvmBuilder {
    type V = BuilderModel;

    closed spec fn view(&self) -> BuilderModel {
        BuilderModel {
            classpath: self.classpath.deep_view(),
            java_opts: self.java_opts.deep_view(),
            repos: repos_model(self.settings.repos@),
            owner: self.owner,
            clock: self.clock,
        }
    }
}

impl JvmBuilder {
    /// A builder without classpath entries, options and repositories. The
    /// runtime it builds is held by the thread 0 and its clock stands at 0.
    pub fn new() -> (b: JvmBuilder)
        ensures
            b@ == (BuilderModel {
                classpath: Seq::empty(),
                java_opts: Seq::empty(),
                repos: Seq::empty(),
                owner: 0,
                clock: 0,
            }),
    {
        let b = JvmBuilder {
            classpath: Vec::new(),
            java_opts: Vec::new(),
            settings: MavenSettings::empty(),
            owner: 0,
            clock: 0,
        };
        assert(b@.classpath =~= Seq::<Seq<char>>::empty());
        assert(b@.java_opts =~= Seq::<Seq<char>>::empty());
        b
    }

    /// Adds one classpath entry at the end.
    pub fn classpath_entry(self, entry: ClasspathEntry) -> (b: JvmBuilder)
        ensures
            b@ == (BuilderModel { classpath: self@.classpath.push(entry@), ..self@ }),
    {
        let mut b = self;
        b.classpath.push(entry.path);
        assert(b@.classpath =~= self@.classpath.push(entry@));
        b
    }

    /// Adds classpath entries at the end, in order.
    pub fn classpath_entries(self, entries: Vec<ClasspathEntry>) -> (b: JvmBuilder)
        ensures
            b@ == (BuilderModel { classpath: self@.classpath + entries_text(entries@), ..self@ }),
    {
        let mut b = self;
        let mut i: usize = 0;
        assert(b@.classpath =~= self@.classpath + entries_text(entries@).take(0));
        while i < entries.len()
            invariant
                i <= entries.len(),
                b@ == (BuilderModel {
                    classpath: self@.classpath + entries_text(entries@).take(i as int),
                    ..self@
                }),
            decreases entries.len() - i,
        {
            let ghost before = b@.classpath;
            b.classpath.push(entries[i].path.clone());
            assert(b@.classpath =~= before.push(entries@[i as int]@));
            assert(entries_text(entries@).take(i as int + 1) =~= entries_text(entries@).take(
                i as int,
            ).push(entries@[i as int]@));
            assert(b@.classpath =~= self@.classpath + entries_text(entries@).take(i as int + 1));
            i += 1;
        }
        assert(entries_text(entries@).take(i as int) =~= entries_text(entries@));
        b
    }

    /// Adds one startup option at the end.
    pub fn java_opt(self, opt: JavaOpt) -> (b: JvmBuilder)
        ensures
            b@ == (BuilderModel { java_opts: self@.java_opts.push(opt@), ..self@ }),
    {
        let mut b = self;
        b.java_opts.push(opt.opt);
        assert(b@.java_opts =~= self@.java_opts.push(opt@));
        b
    }

    /// Adds startup options at the end, in order.
    pub fn java_opts(self, opts: Vec<JavaOpt>) -> (b: JvmBuilder)
        ensures
            b@ == (BuilderModel { java_opts: self@.java_opts + opts_text(opts@), ..self@ }),
    {
        let mut b = self;
        let mut i: usize = 0;
        assert(b@.java_opts =~= self@.java_opts + opts_text(opts@).take(0));
        while i < opts.len()
            invariant
                i <= opts.len(),
                b@ == (BuilderModel {
                    java_opts: self@.java_opts + opts_text(opts@).take(i as int),
                    ..self@
                }),
            decreases opts.len() - i,
        {
            let ghost before = b@.java_opts;
            b.java_opts.push(opts[i].opt.clone());
            assert(b@.java_opts =~= before.push(opts@[i as int]@));
            assert(opts_text(opts@).take(i as int + 1) =~= opts_text(opts@).take(i as int).push(
                opts@[i as int]@,
            ));
            assert(b@.java_opts =~= self@.java_opts + opts_text(opts@).take(i as int + 1));
            i += 1;
        }
        assert(opts_text(opts@).take(i as int) =~= opts_text(opts@));
        b
    }

    /// Sets the repositories artifacts are fetched from, in place of those
    /// set before.
    pub fn with_maven_settings(self, settings: MavenSettings) -> (b: JvmBuilder)
        ensures
            b@ == (BuilderModel { repos: repos_model(settings.repos@), ..self@ }),
    {
        let mut b = self;
        b.settings = settings;
        b
    }

    /// Names the thread that holds the runtime handle.
    pub fn owner_thread(self, thread: u64) -> (b: JvmBuilder)
        ensures
            b@ == (BuilderModel { owner: thread, ..self@ }),
    {
        let mut b = self;
        b.owner = thread;
        b
    }

    /// Sets the clock the runtime starts with, in milliseconds.
    pub fn clock_millis(self, millis: i64) -> (b: JvmBuilder)
        ensures
            b@ == (BuilderModel { clock: millis, ..self@ }),
    {
        let mut b = self;
        b.clock = millis;
        b
    }

    /// Creates the runtime: it declares the standard classes, holds the
    /// configuration collected so far, and has its owner thread attached.
    pub fn build(self) -> (r: Result<Jvm, J4RsError>)
        ensures
            r matches Ok(jvm) && jvm@.wf() && jvm@ == JvmModel::fresh(
                standard_classes(),
                self@.classpath,
                self@.java_opts,
                self@.repos,
                self@.owner,
                self@.clock,
            ),
    {
        let JvmBuilder { classpath, java_opts, settings, owner, clock } = self;
        Ok(Jvm::configured(standard_library(), classpath, java_opts, settings, owner, clock))
    }
}

} // verus!
