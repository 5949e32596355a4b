//! The descriptor of a package: where it comes from, what it needs and how
//! it changed from release to release.

use crate::date::{spec_parse_date, Date, DateView};
use crate::error::{result_view, Error, ErrorView};
use crate::schema::{
    failures, lemma_all_accepted, lemma_results_step, successes, text_of, views,
};
use crate::text::{spec_parse_u32, spec_parse_u64};
use crate::xml::{XmlNode, XmlTree};
use vstd::prelude::*;

verus! {

/// A person: the packager of a source or of one update.
#[derive(Debug, PartialEq, Eq)]
pub struct User {
    name: String,
    email: String,
}

/// The mathematical value of a [`User`].
pub ghost struct UserView {
    pub name: Seq<char>,
    pub email: Seq<char>,
}

impl View for User {
    type V = UserView;

    closed spec fn view(&self) -> UserView {
        UserView { name: self.name@, email: self.email@ }
    }
}

impl User {
    /// The person that an element names by its `Name` and `Email`
    /// children.
    pub open spec fn spec_try_from(node: XmlTree) -> Result<UserView, ErrorView> {
        let name = node.required_child_text("Name"@);
        let email = node.required_child_text("Email"@);
        if name is Err {
            Err(name->Err_0)
        } else if email is Err {
            Err(email->Err_0)
        } else {
            Ok(UserView { name: name->Ok_0, email: email->Ok_0 })
        }
    }

    /// Reads the person that an element names.
    pub fn try_from(node: &XmlNode) -> (r: Result<User, Error>)
        ensures
            result_view(r) == User::spec_try_from(node@),
    {
        let name = node.required_child_text("Name")?.to_owned();
        let email = node.required_child_text("Email")?.to_owned();
        Ok(User { name, email })
    }

    /// The person's name.
    pub fn name(&self) -> (r: &str)
        ensures
            r@ == self@.name,
    {
        self.name.as_str()
    }

    /// The person's mail address.
    pub fn email(&self) -> (r: &str)
        ensures
            r@ == self@.email,
    {
        self.email.as_str()
    }
}

/// The source that a package was built from.
#[derive(Debug, PartialEq, Eq)]
pub struct Source {
    name: String,
    packager: User,
}

/// The mathematical value of a [`Source`].
pub ghost struct SourceView {
    pub name: Seq<char>,
    pub packager: UserView,
}

impl View for Source {
    type V = SourceView;

    closed spec fn view(&self) -> SourceView {
        SourceView { name: self.name@, packager: self.packager@ }
    }
}

/// The packager of a source or of an update: the person that the
/// element's first `Packager` child names.
pub open spec fn spec_packager(node: XmlTree) -> Result<UserView, ErrorView> {
    match node.required_child("Packager"@) {
        Ok(child) => User::spec_try_from(child),
        Err(e) => Err(e),
    }
}

impl Source {
    /// The source that a `Source` element describes.
    pub open spec fn spec_try_from(node: XmlTree) -> Result<SourceView, ErrorView> {
        let name = node.required_child_text("Name"@);
        let packager = spec_packager(node);
        if name is Err {
            Err(name->Err_0)
        } else if packager is Err {
            Err(packager->Err_0)
        } else {
            Ok(SourceView { name: name->Ok_0, packager: packager->Ok_0 })
        }
    }

    /// Reads the source that a `Source` element describes.
    pub fn try_from(node: &XmlNode) -> (r: Result<Source, Error>)
        ensures
            result_view(r) == Source::spec_try_from(node@),
    {
        let name = node.required_child_text("Name")?.to_owned();
        let packager = User::try_from(node.required_child("Packager")?)?;
        Ok(Source { name, packager })
    }

    /// The name of the source.
    pub fn name(&self) -> (r: &str)
        ensures
            r@ == self@.name,
    {
        self.name.as_str()
    }

    /// Who packaged the source.
    pub fn packager(&self) -> (r: &User)
        ensures
            r@ == self@.packager,
    {
        &self.packager
    }
}

/// Another package that this one needs at run time.
#[derive(Debug, PartialEq, Eq)]
pub struct Dependency {
    release: u32,
    name: String,
}

/// The mathematical value of a [`Dependency`].
pub ghost struct DependencyView {
    pub release: u32,
    pub name: Seq<char>,
}

impl View for Dependency {
    type V = DependencyView;

    closed spec fn view(&self) -> DependencyView {
        DependencyView { release: self.release, name: self.name@ }
    }
}

/// The mapping of one dependency entry, as a function on nodes.
pub open spec fn dependency_of() -> spec_fn(XmlTree) -> Result<DependencyView, ErrorView> {
    |node: XmlTree| Dependency::spec_try_from(node)
}

impl Dependency {
    /// The dependency that a `Dependency` element describes: the least
    /// release that will do is its `releaseFrom` attribute, and the name of
    /// the package is its text.
    pub open spec fn spec_try_from(node: XmlTree) -> Result<DependencyView, ErrorView> {
        let release = node.attribute_uint("releaseFrom"@);
        if release is Err {
            Err(release->Err_0)
        } else if node.text is None {
            Err(ErrorView::MissingField("Dependency"@))
        } else {
            Ok(DependencyView { release: release->Ok_0, name: node.text->Some_0 })
        }
    }

    /// The results of mapping each `Dependency` child of a section, in
    /// document order.
    pub open spec fn spec_results(section: XmlTree) -> Seq<Result<DependencyView, ErrorView>> {
        section.all_children("Dependency"@).map_values(dependency_of())
    }

    /// Reads the dependency that a `Dependency` element describes.
    pub fn try_from(node: &XmlNode) -> (r: Result<Dependency, Error>)
        ensures
            result_view(r) == Dependency::spec_try_from(node@),
    {
        let release = node.attribute_uint("releaseFrom")?;
        let name = match &node.text {
            Some(text) => text.as_str().to_owned(),
            None => {
                return Err(Error::missing_field("Dependency"));
            },
        };
        Ok(Dependency { release, name })
    }

    /// Reads the `Dependency` children of a section and parts them in two:
    /// those that are well formed, and why each of the others is not.
    pub fn partition(section: &XmlNode) -> (r: (Vec<Dependency>, Vec<Error>))
        ensures
            views(r.0@) == successes(Dependency::spec_results(section@)),
            views(r.1@) == failures(Dependency::spec_results(section@)),
    {
        let entries = section.all_children("Dependency");
        let ghost results = Dependency::spec_results(section@);
        let mut kept: Vec<Dependency> = Vec::new();
        let mut errors: Vec<Error> = Vec::new();
        let mut i: usize = 0;
        proof {
            assert(results.take(0).len() == 0);
            assert(views(kept@) =~= Seq::empty());
            assert(views(errors@) =~= Seq::empty());
        }
        while i < entries.len()
            invariant
                i <= entries.len(),
                views(entries@) == section@.all_children("Dependency"@),
                results == Dependency::spec_results(section@),
                views(kept@) == successes(results.take(i as int)),
                views(errors@) == failures(results.take(i as int)),
            decreases entries.len() - i,
        {
            proof {
                lemma_results_step(results, i as int);
                assert(results[i as int] == Dependency::spec_try_from(entries[i as int]@));
            }
            match Dependency::try_from(entries[i]) {
                Ok(dependency) => {
                    let ghost before = kept@;
                    kept.push(dependency);
                    assert(views(kept@) =~= views(before).push(dependency@));
                },
                Err(e) => {
                    let ghost before = errors@;
                    errors.push(e);
                    assert(views(errors@) =~= views(before).push(e@));
                },
            }
            i += 1;
        }
        proof {
            assert(results.take(i as int) =~= results);
        }
        (kept, errors)
    }

    /// The least release of the package that will do.
    pub fn release(&self) -> (r: u32)
        ensures
            r == self@.release,
    {
        self.release
    }

    /// The name of the package that is needed.
    pub fn name(&self) -> (r: &str)
        ensures
            r@ == self@.name,
    {
        self.name.as_str()
    }
}

/// One release in the history of a package.
#[derive(Debug, PartialEq, Eq)]
pub struct Update {
    release: u32,
    date: Date,
    version: String,
    comment: String,
    packager: User,
}

/// The mathematical value of an [`Update`].
pub ghost struct UpdateView {
    pub release: u32,
    pub date: DateView,
    pub version: Seq<char>,
    pub comment: Seq<char>,
    pub packager: UserView,
}

impl View for Update {
    type V = UpdateView;

    closed spec fn view(&self) -> UpdateView {
        UpdateView {
            release: self.release,
            date: self.date@,
            version: self.version@,
            comment: self.comment@,
            packager: self.packager@,
        }
    }
}

/// The mapping of one history entry, as a function on nodes.
pub open spec fn update_of() -> spec_fn(XmlTree) -> Result<UpdateView, ErrorView> {
    |node: XmlTree| Update::spec_try_from(node)
}

impl Update {
    /// The release that an `Update` element describes. The release number
    /// is its `release` attribute; the date, the version and the comment
    /// are the texts of its `Date`, `Version` and `Comment` children; the
    /// packager is the person that its `Packager` child names. The first
    /// of these that cannot be read, in this order, decides the error.
    pub open spec fn spec_try_from(node: XmlTree) -> Result<UpdateView, ErrorView> {
        let release = node.attribute_uint("release"@);
        let date = node.required_child_date("Date"@);
        let version = node.required_child_text("Version"@);
        let comment = node.required_child_text("Comment"@);
        let packager = spec_packager(node);
        if release is Err {
            Err(release->Err_0)
        } else if date is Err {
            Err(date->Err_0)
        } else if version is Err {
            Err(version->Err_0)
        } else if comment is Err {
            Err(comment->Err_0)
        } else if packager is Err {
            Err(packager->Err_0)
        } else {
            Ok(
                UpdateView {
                    release: release->Ok_0,
                    date: date->Ok_0,
                    version: version->Ok_0,
                    comment: comment->Ok_0,
                    packager: packager->Ok_0,
                },
            )
        }
    }

    /// The results of mapping each `Update` child of a section, in document
    /// order.
    pub open spec fn spec_results(section: XmlTree) -> Seq<Result<UpdateView, ErrorView>> {
        section.all_children("Update"@).map_values(update_of())
    }

    /// Reads the release that an `Update` element describes.
    pub fn try_from(node: &XmlNode) -> (r: Result<Update, Error>)
        ensures
            result_view(r) == Update::spec_try_from(node@),
    {
        let release = node.attribute_uint("release")?;
        let date = node.required_child_date("Date")?;
        let version = node.required_child_text("Version")?.to_owned();
        let comment = node.required_child_text("Comment")?.to_owned();
        let packager = User::try_from(node.required_child("Packager")?)?;
        Ok(Update { release, date, version, comment, packager })
    }

    /// Reads the `Update` children of a section and parts them in two:
    /// those that are well formed, and why each of the others is not.
    pub fn partition(section: &XmlNode) -> (r: (Vec<Update>, Vec<Error>))
        ensures
            views(r.0@) == successes(Update::spec_results(section@)),
            views(r.1@) == failures(Update::spec_results(section@)),
    {
        let entries = section.all_children("Update");
        let ghost results = Update::spec_results(section@);
        let mut kept: Vec<Update> = Vec::new();
        let mut errors: Vec<Error> = Vec::new();
        let mut i: usize = 0;
        proof {
            assert(results.take(0).len() == 0);
            assert(views(kept@) =~= Seq::empty());
            assert(views(errors@) =~= Seq::empty());
        }
        while i < entries.len()
            invariant
                i <= entries.len(),
                views(entries@) == section@.all_children("Update"@),
                results == Update::spec_results(section@),
                views(kept@) == successes(results.take(i as int)),
                views(errors@) == failures(results.take(i as int)),
            decreases entries.len() - i,
        {
            proof {
                lemma_results_step(results, i as int);
                assert(results[i as int] == Update::spec_try_from(entries[i as int]@));
            }
            match Update::try_from(entries[i]) {
                Ok(update) => {
                    let ghost before = kept@;
                    kept.push(update);
                    assert(views(kept@) =~= views(before).push(update@));
                },
                Err(e) => {
                    let ghost before = errors@;
                    errors.push(e);
                    assert(views(errors@) =~= views(before).push(e@));
                },
            }
            i += 1;
        }
        proof {
            assert(results.take(i as int) =~= results);
        }
        (kept, errors)
    }

    /// The number of the release.
    pub fn release(&self) -> (r: u32)
        ensures
            r == self@.release,
    {
        self.release
    }

    /// The day of the release.
    pub fn date(&self) -> (r: Date)
        ensures
            r@ == self@.date,
    {
        self.date
    }

    /// The version that was released.
    pub fn version(&self) -> (r: &str)
        ensures
            r@ == self@.version,
    {
        self.version.as_str()
    }

    /// What the packager wrote about the release.
    pub fn comment(&self) -> (r: &str)
        ensures
            r@ == self@.comment,
    {
        self.comment.as_str()
    }

    /// Who made the release.
    pub fn packager(&self) -> (r: &User)
        ensures
            r@ == self@.packager,
    {
        &self.packager
    }
}

/// The descriptor of a package.
#[derive(Debug, PartialEq, Eq)]
pub struct Package {
    name: String,
    summary: String,
    description: String,
    part_of: String,
    licenses: Vec<String>,
    runtime_dependencies: Vec<Dependency>,
    history: Vec<Update>,
    build_host: String,
    distribution: String,
    distribution_release: String,
    arch: String,
    installed_size: u64,
    package_format: String,
    source: Source,
}

/// The mathematical value of a [`Package`].
pub ghost struct PackageView {
    pub name: Seq<char>,
    pub summary: Seq<char>,
    pub description: Seq<char>,
    pub part_of: Seq<char>,
    pub licenses: Seq<Seq<char>>,
    pub runtime_dependencies: Seq<DependencyView>,
    pub history: Seq<UpdateView>,
    pub build_host: Seq<char>,
    pub distribution: Seq<char>,
    pub distribution_release: Seq<char>,
    pub arch: Seq<char>,
    pub installed_size: u64,
    pub package_format: Seq<char>,
    pub source: SourceView,
}

impl View for Package {
    type V = PackageView;

    closed spec fn view(&self) -> PackageView {
        PackageView {
            name: self.name@,
            summary: self.summary@,
            description: self.description@,
            part_of: self.part_of@,
            licenses: views(self.licenses@),
            runtime_dependencies: views(self.runtime_dependencies@),
            history: views(self.history@),
            build_host: self.build_host@,
            distribution: self.distribution@,
            distribution_release: self.distribution_release@,
            arch: self.arch@,
            installed_size: self.installed_size,
            package_format: self.package_format@,
            source: self.source@,
        }
    }
}

/// The licenses that an element declares: the texts of its `License`
/// children that have one, in document order.
pub open spec fn spec_licenses(node: XmlTree) -> Seq<Seq<char>> {
    node.all_children("License"@).filter_map(text_of())
}

/// The source that an element names: what its first `Source` child
/// describes.
pub open spec fn spec_source(node: XmlTree) -> Result<SourceView, ErrorView> {
    match node.required_child("Source"@) {
        Ok(child) => Source::spec_try_from(child),
        Err(e) => Err(e),
    }
}

impl Package {
    #[verifier::type_invariant]
    spec fn has_a_license(self) -> bool {
        self.licenses.len() > 0
    }

    /// The error that stops the mapping of a `Package` element before it
    /// reaches the dependencies: that of the first of name, summary,
    /// description and component that cannot be read, or else that of an
    /// empty license list.
    pub open spec fn spec_heading_error(node: XmlTree) -> Option<ErrorView> {
        let name = node.required_child_text("Name"@);
        let summary = node.required_child_text("Summary"@);
        let description = node.required_child_text("Description"@);
        let part_of = node.required_child_text("PartOf"@);
        if name is Err {
            Some(name->Err_0)
        } else if summary is Err {
            Some(summary->Err_0)
        } else if description is Err {
            Some(description->Err_0)
        } else if part_of is Err {
            Some(part_of->Err_0)
        } else if spec_licenses(node).len() == 0 {
            Some(ErrorView::EmptyLicenseList)
        } else {
            None
        }
    }

    /// The package that a `Package` element describes. The fields are read
    /// in the order of [`PackageView`], and the first one that cannot be
    /// read decides the error. The two sections `RuntimeDependencies` and
    /// `History` must be there, but an entry of theirs that is malformed is
    /// left out and makes no error.
    pub open spec fn spec_try_from(node: XmlTree) -> Result<PackageView, ErrorView> {
        let dependencies = node.required_child("RuntimeDependencies"@);
        let history = node.required_child("History"@);
        let build_host = node.required_child_text("BuildHost"@);
        let distribution = node.required_child_text("Distribution"@);
        let distribution_release = node.required_child_text("DistributionRelease"@);
        let arch = node.required_child_text("Architecture"@);
        let installed_size = node.required_child_uint64("InstalledSize"@);
        let package_format = node.required_child_text("PackageFormat"@);
        let source = spec_source(node);
        if Package::spec_heading_error(node) is Some {
            Err(Package::spec_heading_error(node)->Some_0)
        } else if dependencies is Err {
            Err(dependencies->Err_0)
        } else if history is Err {
            Err(history->Err_0)
        } else if build_host is Err {
            Err(build_host->Err_0)
        } else if distribution is Err {
            Err(distribution->Err_0)
        } else if distribution_release is Err {
            Err(distribution_release->Err_0)
        } else if arch is Err {
            Err(arch->Err_0)
        } else if installed_size is Err {
            Err(installed_size->Err_0)
        } else if package_format is Err {
            Err(package_format->Err_0)
        } else if source is Err {
            Err(source->Err_0)
        } else {
            Ok(
                PackageView {
                    name: node.required_child_text("Name"@)->Ok_0,
                    summary: node.required_child_text("Summary"@)->Ok_0,
                    description: node.required_child_text("Description"@)->Ok_0,
                    part_of: node.required_child_text("PartOf"@)->Ok_0,
                    licenses: spec_licenses(node),
                    runtime_dependencies: successes(Dependency::spec_results(dependencies->Ok_0)),
                    history: successes(Update::spec_results(history->Ok_0)),
                    build_host: build_host->Ok_0,
                    distribution: distribution->Ok_0,
                    distribution_release: distribution_release->Ok_0,
                    arch: arch->Ok_0,
                    installed_size: installed_size->Ok_0,
                    package_format: package_format->Ok_0,
                    source: source->Ok_0,
                },
            )
        }
    }

    /// What the mapping of a `Package` element leaves out on its way: the
    /// errors of the malformed dependency entries, then those of the
    /// malformed history entries, each section counted only where the
    /// mapping gets as far as that section.
    pub open spec fn spec_rejected_entries(node: XmlTree) -> Seq<ErrorView> {
        let dependencies = node.required_child("RuntimeDependencies"@);
        let history = node.required_child("History"@);
        if Package::spec_heading_error(node) is Some || dependencies is Err {
            Seq::empty()
        } else if history is Err {
            failures(Dependency::spec_results(dependencies->Ok_0))
        } else {
            failures(Dependency::spec_results(dependencies->Ok_0)) + failures(
                Update::spec_results(history->Ok_0),
            )
        }
    }

    /// Reads the licenses that an element declares.
    pub fn licenses_of(node: &XmlNode) -> (r: Vec<String>)
        ensures
            views(r@) == spec_licenses(node@),
    {
        let entries = node.all_children("License");
        let ghost all = node@.all_children("License"@);
        let mut licenses: Vec<String> = Vec::new();
        let mut i: usize = 0;
        proof {
            assert(all.take(0).len() == 0);
            assert(views(licenses@) =~= Seq::empty());
        }
        while i < entries.len()
            invariant
                i <= entries.len(),
                views(entries@) == all,
                all == node@.all_children("License"@),
                views(licenses@) == all.take(i as int).filter_map(text_of()),
            decreases entries.len() - i,
        {
            proof {
                all.lemma_filter_map_take_succ(text_of(), i as int);
                assert(all[i as int] == entries[i as int]@);
            }
            match &entries[i].text {
                Some(text) => {
                    let ghost before = licenses@;
                    licenses.push(text.as_str().to_owned());
                    assert(views(licenses@) =~= views(before) + seq![text@]);
                },
                None => {},
            }
            i += 1;
        }
        proof {
            assert(all.take(i as int) =~= all);
        }
        licenses
    }

    /// Reads the package that a `Package` element describes.
    pub fn try_from(node: &XmlNode) -> (r: Result<Package, Error>)
        ensures
            result_view(r) == Package::spec_try_from(node@),
    {
        let name = node.required_child_text("Name")?.to_owned();
        let summary = node.required_child_text("Summary")?.to_owned();
        let description = node.required_child_text("Description")?.to_owned();
        let part_of = node.required_child_text("PartOf")?.to_owned();
        let licenses = Package::licenses_of(node);
        if licenses.len() == 0 {
            return Err(Error::EmptyLicenseList);
        }
        let runtime_dependencies = Dependency::partition(
            node.required_child("RuntimeDependencies")?,
        ).0;
        let history = Update::partition(node.required_child("History")?).0;
        let build_host = node.required_child_text("BuildHost")?.to_owned();
        let distribution = node.required_child_text("Distribution")?.to_owned();
        let distribution_release = node.required_child_text("DistributionRelease")?.to_owned();
        let arch = node.required_child_text("Architecture")?.to_owned();
        let installed_size = node.required_child_uint64("InstalledSize")?;
        let package_format = node.required_child_text("PackageFormat")?.to_owned();
        let source = Source::try_from(node.required_child("Source")?)?;
        Ok(
            Package {
                name,
                summary,
                description,
                part_of,
                licenses,
                runtime_dependencies,
                history,
                build_host,
                distribution,
                distribution_release,
                arch,
                installed_size,
                package_format,
                source,
            },
        )
    }

    /// Reports why each entry that [`Package::try_from`] leaves out of the
    /// dependencies and of the history is malformed.
    pub fn rejected_entries(node: &XmlNode) -> (r: Vec<Error>)
        ensures
            views(r@) == Package::spec_rejected_entries(node@),
    {
        let mut errors: Vec<Error> = Vec::new();
        proof {
            assert(views(errors@) =~= Seq::empty());
        }
        if node.required_child_text("Name").is_err() || node.required_child_text(
            "Summary",
        ).is_err() || node.required_child_text("Description").is_err() || node.required_child_text(
            "PartOf",
        ).is_err() {
            return errors;
        }
        if Package::licenses_of(node).len() == 0 {
            return errors;
        }
        let dependencies = match node.required_child("RuntimeDependencies") {
            Ok(section) => section,
            Err(_) => {
                return errors;
            },
        };
        let mut errors = Dependency::partition(dependencies).1;
        let history = match node.required_child("History") {
            Ok(section) => section,
            Err(_) => {
                return errors;
            },
        };
        let mut late = Update::partition(history).1;
        let ghost early = errors@;
        let ghost rest = late@;
        errors.append(&mut late);
        proof {
            assert(views(errors@) =~= views(early) + views(rest));
        }
        errors
    }

    /// The name of the package.
    pub fn name(&self) -> (r: &str)
        ensures
            r@ == self@.name,
    {
        self.name.as_str()
    }

    /// A one-line summary of the package.
    pub fn summary(&self) -> (r: &str)
        ensures
            r@ == self@.summary,
    {
        self.summary.as_str()
    }

    /// A description of the package.
    pub fn description(&self) -> (r: &str)
        ensures
            r@ == self@.description,
    {
        self.description.as_str()
    }

    /// The component that the package is part of.
    pub fn part_of(&self) -> (r: &str)
        ensures
            r@ == self@.part_of,
    {
        self.part_of.as_str()
    }

    /// The licenses of the package: at least one.
    pub fn licenses(&self) -> (r: &Vec<String>)
        ensures
            views(r@) == self@.licenses,
            r.len() > 0,
    {
        proof {
            use_type_invariant(self);
        }
        &self.licenses
    }

    /// The packages that this one needs at run time.
    pub fn runtime_dependencies(&self) -> (r: &Vec<Dependency>)
        ensures
            views(r@) == self@.runtime_dependencies,
    {
        &self.runtime_dependencies
    }

    /// The releases of the package.
    pub fn history(&self) -> (r: &Vec<Update>)
        ensures
            views(r@) == self@.history,
    {
        &self.history
    }

    /// The host that built the package.
    pub fn build_host(&self) -> (r: &str)
        ensures
            r@ == self@.build_host,
    {
        self.build_host.as_str()
    }

    /// The distribution that the package was built for.
    pub fn distribution(&self) -> (r: &str)
        ensures
            r@ == self@.distribution,
    {
        self.distribution.as_str()
    }

    /// The release of that distribution.
    pub fn distribution_release(&self) -> (r: &str)
        ensures
            r@ == self@.distribution_release,
    {
        self.distribution_release.as_str()
    }

    /// The architecture that the package was built for.
    pub fn arch(&self) -> (r: &str)
        ensures
            r@ == self@.arch,
    {
        self.arch.as_str()
    }

    /// The size of the installed files, in bytes.
    pub fn installed_size(&self) -> (r: u64)
        ensures
            r == self@.installed_size,
    {
        self.installed_size
    }

    /// The version of the package format.
    pub fn package_format(&self) -> (r: &str)
        ensures
            r@ == self@.package_format,
    {
        self.package_format.as_str()
    }

    /// The source that the package was built from.
    pub fn source(&self) -> (r: &Source)
        ensures
            r@ == self@.source,
    {
        &self.source
    }
}

/// Whether an element names a person as the format has it.
pub open spec fn well_formed_user(node: XmlTree) -> bool {
    node.has_text("Name"@) && node.has_text("Email"@)
}

/// Whether an element is a source as the format has it.
pub open spec fn well_formed_source(node: XmlTree) -> bool {
    &&& node.has_text("Name"@)
    &&& node.child("Packager"@) matches Some(packager) && well_formed_user(packager)
}

/// Whether an element is a dependency entry as the format has it.
pub open spec fn well_formed_dependency(node: XmlTree) -> bool {
    &&& node.attribute("releaseFrom"@) matches Ok(raw) && spec_parse_u32(raw) is Some
    &&& node.text is Some
}

/// Whether an element is a history entry as the format has it.
pub open spec fn well_formed_update(node: XmlTree) -> bool {
    &&& node.attribute("release"@) matches Ok(raw) && spec_parse_u32(raw) is Some
    &&& node.has_text("Date"@) && spec_parse_date(node.text_under("Date"@)) is Some
    &&& node.has_text("Version"@)
    &&& node.has_text("Comment"@)
    &&& node.child("Packager"@) matches Some(packager) && well_formed_user(packager)
}

/// Whether an element is a package descriptor as the format has it: every
/// field is there, there is a license, the size is a decimal number, and
/// every entry of the two sections is well formed.
pub open spec fn well_formed_package(node: XmlTree) -> bool {
    &&& node.has_text("Name"@)
    &&& node.has_text("Summary"@)
    &&& node.has_text("Description"@)
    &&& node.has_text("PartOf"@)
    &&& spec_licenses(node).len() > 0
    &&& node.child("RuntimeDependencies"@) matches Some(section) && (forall|i: int|
        0 <= i < section.all_children("Dependency"@).len() ==> well_formed_dependency(
            #[trigger] section.all_children("Dependency"@)[i],
        ))
    &&& node.child("History"@) matches Some(section) && (forall|i: int|
        0 <= i < section.all_children("Update"@).len() ==> well_formed_update(
            #[trigger] section.all_children("Update"@)[i],
        ))
    &&& node.has_text("BuildHost"@)
    &&& node.has_text("Distribution"@)
    &&& node.has_text("DistributionRelease"@)
    &&& node.has_text("Architecture"@)
    &&& node.has_text("InstalledSize"@) && spec_parse_u64(node.text_under("InstalledSize"@)) is Some
    &&& node.has_text("PackageFormat"@)
    &&& node.child("Source"@) matches Some(source) && well_formed_source(source)
}

/// Whether an element is the root of a metadata document as the format has
/// it.
pub open spec fn well_formed_metadata(root: XmlTree) -> bool {
    &&& root.child("Source"@) matches Some(source) && well_formed_source(source)
    &&& root.child("Package"@) matches Some(package) && well_formed_package(package)
}

/// A well-formed source is mapped, and each field is the text it stands
/// for.
pub proof fn lemma_well_formed_source(node: XmlTree)
    requires
        well_formed_source(node),
    ensures
        Source::spec_try_from(node) == Ok::<SourceView, ErrorView>(
            SourceView {
                name: node.text_under("Name"@),
                packager: UserView {
                    name: node.child("Packager"@)->Some_0.text_under("Name"@),
                    email: node.child("Packager"@)->Some_0.text_under("Email"@),
                },
            },
        ),
{
}

/// A well-formed dependency entry is mapped: the release is its attribute
/// read in decimal, the name its text.
pub proof fn lemma_well_formed_dependency(node: XmlTree)
    requires
        well_formed_dependency(node),
    ensures
        Dependency::spec_try_from(node) == Ok::<DependencyView, ErrorView>(
            DependencyView {
                release: spec_parse_u32(node.attribute("releaseFrom"@)->Ok_0)->Some_0,
                name: node.text->Some_0,
            },
        ),
{
}

/// A well-formed history entry is mapped: the release is its attribute read
/// in decimal, the date the one that its text denotes, and the other fields
/// the texts they stand for.
pub proof fn lemma_well_formed_update(node: XmlTree)
    requires
        well_formed_update(node),
    ensures
        Update::spec_try_from(node) == Ok::<UpdateView, ErrorView>(
            UpdateView {
                release: spec_parse_u32(node.attribute("release"@)->Ok_0)->Some_0,
                date: spec_parse_date(node.text_under("Date"@))->Some_0,
                version: node.text_under("Version"@),
                comment: node.text_under("Comment"@),
                packager: UserView {
                    name: node.child("Packager"@)->Some_0.text_under("Name"@),
                    email: node.child("Packager"@)->Some_0.text_under("Email"@),
                },
            },
        ),
{
}

/// A well-formed package descriptor is mapped. Each scalar field is the
/// text it stands for, the size read in decimal; the licenses are the texts
/// of the `License` children; and every entry of the two sections is kept,
/// in document order, so that nothing is left out.
pub proof fn lemma_well_formed_package(node: XmlTree)
    requires
        well_formed_package(node),
    ensures
        Package::spec_try_from(node) matches Ok(package) && {
            let dependencies = node.child("RuntimeDependencies"@)->Some_0.all_children(
                "Dependency"@,
            );
            let updates = node.child("History"@)->Some_0.all_children("Update"@);
            &&& package.name == node.text_under("Name"@)
            &&& package.summary == node.text_under("Summary"@)
            &&& package.description == node.text_under("Description"@)
            &&& package.part_of == node.text_under("PartOf"@)
            &&& package.licenses == spec_licenses(node)
            &&& package.runtime_dependencies.len() == dependencies.len()
            &&& forall|i: int|
                0 <= i < dependencies.len() ==> Dependency::spec_try_from(dependencies[i]) == Ok::<
                    DependencyView,
                    ErrorView,
                >(#[trigger] package.runtime_dependencies[i])
            &&& package.history.len() == updates.len()
            &&& forall|i: int|
                0 <= i < updates.len() ==> Update::spec_try_from(updates[i]) == Ok::<
                    UpdateView,
                    ErrorView,
                >(#[trigger] package.history[i])
            &&& package.build_host == node.text_under("BuildHost"@)
            &&& package.distribution == node.text_under("Distribution"@)
            &&& package.distribution_release == node.text_under("DistributionRelease"@)
            &&& package.arch == node.text_under("Architecture"@)
            &&& Some(package.installed_size) == spec_parse_u64(node.text_under("InstalledSize"@))
            &&& package.package_format == node.text_under("PackageFormat"@)
            &&& Source::spec_try_from(node.child("Source"@)->Some_0) == Ok::<
                SourceView,
                ErrorView,
            >(package.source)
        },
        Package::spec_rejected_entries(node).len() == 0,
{
    let dependencies = node.child("RuntimeDependencies"@)->Some_0.all_children("Dependency"@);
    let updates = node.child("History"@)->Some_0.all_children("Update"@);
    let first = Dependency::spec_results(node.child("RuntimeDependencies"@)->Some_0);
    let second = Update::spec_results(node.child("History"@)->Some_0);
    assert forall|i: int| 0 <= i < first.len() implies (#[trigger] first[i]) is Ok by {
        assert(well_formed_dependency(dependencies[i]));
        lemma_well_formed_dependency(dependencies[i]);
    }
    assert forall|i: int| 0 <= i < second.len() implies (#[trigger] second[i]) is Ok by {
        assert(well_formed_update(updates[i]));
        lemma_well_formed_update(updates[i]);
    }
    lemma_all_accepted(first);
    lemma_all_accepted(second);
    lemma_well_formed_source(node.child("Source"@)->Some_0);
    let package = Package::spec_try_from(node)->Ok_0;
    assert forall|i: int| 0 <= i < dependencies.len() implies Dependency::spec_try_from(
        dependencies[i],
    ) == Ok::<DependencyView, ErrorView>(#[trigger] package.runtime_dependencies[i]) by {
        assert(first[i] == Ok::<DependencyView, ErrorView>(successes(first)[i]));
    }
    assert forall|i: int| 0 <= i < updates.len() implies Update::spec_try_from(updates[i]) == Ok::<
        UpdateView,
        ErrorView,
    >(#[trigger] package.history[i]) by {
        assert(second[i] == Ok::<UpdateView, ErrorView>(successes(second)[i]));
    }
}

/// A well-formed metadata document is mapped: its source and its package
/// are those that its two children describe, and nothing is left out.
pub proof fn lemma_well_formed_metadata(root: XmlTree)
    requires
        well_formed_metadata(root),
    ensures
        Pisi::spec_try_from(root) matches Ok(metadata) && Source::spec_try_from(
            root.child("Source"@)->Some_0,
        ) == Ok::<SourceView, ErrorView>(metadata.source) && Package::spec_try_from(
            root.child("Package"@)->Some_0,
        ) == Ok::<PackageView, ErrorView>(metadata.package),
        Pisi::spec_rejected_entries(root).len() == 0,
{
    lemma_well_formed_source(root.child("Source"@)->Some_0);
    lemma_well_formed_package(root.child("Package"@)->Some_0);
}

/// A package has a license. An element that declares none (because it has
/// no `License` child, or none with a text) is never mapped to a package,
/// and the error says so wherever the four fields before the licenses can
/// be read.
pub proof fn lemma_license_is_required(node: XmlTree)
    ensures
        Package::spec_try_from(node) matches Ok(package) ==> package.licenses.len() > 0,
        node.all_children("License"@).len() == 0 ==> spec_licenses(node).len() == 0,
        spec_licenses(node).len() == 0 ==> Package::spec_try_from(node) is Err,
        spec_licenses(node).len() == 0 && node.required_child_text("Name"@) is Ok
            && node.required_child_text("Summary"@) is Ok && node.required_child_text(
            "Description"@,
        ) is Ok && node.required_child_text("PartOf"@) is Ok ==> Package::spec_try_from(node)
            == Err::<PackageView, ErrorView>(ErrorView::EmptyLicenseList),
{
}

/// A metadata document whose package declares no license is never mapped,
/// and the error says so wherever the document's source and the four fields
/// before the licenses can be read.
pub proof fn lemma_metadata_needs_a_license(root: XmlTree)
    requires
        root.required_child("Package"@) matches Ok(package) && spec_licenses(package).len() == 0,
    ensures
        Pisi::spec_try_from(root) is Err,
        spec_source(root) is Ok && Package::spec_heading_error(
            root.required_child("Package"@)->Ok_0,
        ) == Some(ErrorView::EmptyLicenseList) ==> Pisi::spec_try_from(root) == Err::<
            PisiView,
            ErrorView,
        >(ErrorView::EmptyLicenseList),
{
    lemma_license_is_required(root.required_child("Package"@)->Ok_0);
}

/// The content of a package's metadata document.
#[derive(Debug, PartialEq, Eq)]
pub struct Pisi {
    source: Source,
    package: Package,
}

/// The mathematical value of a [`Pisi`].
pub ghost struct PisiView {
    pub source: SourceView,
    pub package: PackageView,
}

impl View for Pisi {
    type V = PisiView;

    closed spec fn view(&self) -> PisiView {
        PisiView { source: self.source@, package: self.package@ }
    }
}

/// The package that a metadata document describes: what its first
/// `Package` child holds.
pub open spec fn spec_package(node: XmlTree) -> Result<PackageView, ErrorView> {
    match node.required_child("Package"@) {
        Ok(child) => Package::spec_try_from(child),
        Err(e) => Err(e),
    }
}

impl Pisi {
    /// The metadata that the root element of a metadata document holds:
    /// its source, then its package. The source is described a second time
    /// inside the package, and both descriptions are kept.
    pub open spec fn spec_try_from(node: XmlTree) -> Result<PisiView, ErrorView> {
        let source = spec_source(node);
        let package = spec_package(node);
        if source is Err {
            Err(source->Err_0)
        } else if package is Err {
            Err(package->Err_0)
        } else {
            Ok(PisiView { source: source->Ok_0, package: package->Ok_0 })
        }
    }

    /// What the mapping of a metadata document leaves out on its way: the
    /// malformed entries of its package, where the mapping gets as far as
    /// the package.
    pub open spec fn spec_rejected_entries(node: XmlTree) -> Seq<ErrorView> {
        if spec_source(node) is Ok && node.required_child("Package"@) is Ok {
            Package::spec_rejected_entries(node.required_child("Package"@)->Ok_0)
        } else {
            Seq::empty()
        }
    }

    /// Reads the metadata that the root element of a metadata document
    /// holds.
    pub fn try_from(node: &XmlNode) -> (r: Result<Pisi, Error>)
        ensures
            result_view(r) == Pisi::spec_try_from(node@),
    {
        let source = Source::try_from(node.required_child("Source")?)?;
        let package = Package::try_from(node.required_child("Package")?)?;
        Ok(Pisi { source, package })
    }

    /// Reports why each entry that [`Pisi::try_from`] leaves out is
    /// malformed.
    pub fn rejected_entries(node: &XmlNode) -> (r: Vec<Error>)
        ensures
            views(r@) == Pisi::spec_rejected_entries(node@),
    {
        let source = match node.required_child("Source") {
            Ok(child) => Source::try_from(child),
            Err(e) => Err(e),
        };
        if source.is_ok() {
            match node.required_child("Package") {
                Ok(child) => {
                    return Package::rejected_entries(child);
                },
                Err(_) => {},
            }
        }
        let errors: Vec<Error> = Vec::new();
        proof {
            assert(views(errors@) =~= Seq::empty());
        }
        errors
    }

    /// The source that the package was built from.
    pub fn source(&self) -> (r: &Source)
        ensures
            r@ == self@.source,
    {
        &self.source
    }

    /// The descriptor of the package.
    pub fn package(&self) -> (r: &Package)
        ensures
            r@ == self@.package,
    {
        &self.package
    }
}

} // verus!
