//! The registry of managed paths.
//!
//! A [`PathRegistryPlugin`] collects registrations: a kind, which is a number
//! the application chooses, and the relative path or the template that belongs
//! to it. Every registration is validated when it is made. One call of
//! [`PathRegistryPlugin::build_registry`] then yields the [`PathRegistry`],
//! which is only read from: it answers with absolute paths below the project
//! root, `<base path>/<studio>/<project id>`.

use crate::error::{PathFault, PathRegistrationError};
use crate::component::{component_ok, nfc};
use crate::structure::{
    check_normalized, components, filled_check, first_refused, has_navigation, join, join_paths,
    joined, normal_check, normalized, read_shape, shape_fault, structural_check, texts,
    validate_filled_path, validate_structural_path,
};
use crate::structure_laws::{
    lemma_accepted_path_stays_below, lemma_filled_path_holds_acceptable_components,
};
use crate::template::{field_views, resolve_template, substitute, Field};
use crate::text::{text_view, trimmed};
use std::collections::HashMap;
use vstd::prelude::*;
use vstd::std_specs::hash::group_hash_axioms;
use vstd::string::StringExecFns;

verus! {

broadcast use group_hash_axioms;

/// The texts that a map of strings holds.
pub open spec fn map_texts(m: Map<u64, String>) -> Map<u64, Seq<char>> {
    m.map_values(|s: String| s@)
}

/// What a registry holds, with every text as a sequence of characters.
pub ghost struct RegistryView {
    pub studio: Seq<char>,
    pub project_id: Seq<char>,
    pub app_id: Seq<char>,
    pub base_path: Seq<char>,
    pub paths: Map<u64, Seq<char>>,
    pub templates: Map<u64, Seq<char>>,
}

impl RegistryView {
    /// The project root: the base path, then the studio, then the project.
    pub open spec fn project_root(self) -> Seq<char> {
        join(join(self.base_path, self.studio), self.project_id)
    }

    /// The absolute path of a kind with a fixed path, if the kind has one.
    pub open spec fn absolute(self, kind: u64) -> Option<Seq<char>> {
        if self.paths.contains_key(kind) {
            Some(join(self.project_root(), self.paths[kind]))
        } else {
            None
        }
    }

    /// What resolving a kind with the given fields yields. A kind with a fixed
    /// path resolves to that path below the project root. A kind with a
    /// template resolves to the filled template below the project root, if the
    /// filled template passes the validation of filled paths, and to the fault
    /// otherwise. A kind that was never registered resolves to nothing.
    pub open spec fn resolved(self, kind: u64, fields: Seq<(Seq<char>, Seq<char>)>) -> Option<
        Result<Seq<char>, PathFault>,
    > {
        if self.paths.contains_key(kind) {
            Some(Ok(join(self.project_root(), self.paths[kind])))
        } else if self.templates.contains_key(kind) {
            Some(
                match filled_check(substitute(self.templates[kind], fields)) {
                    Ok(rel) => Ok(join(self.project_root(), rel)),
                    Err(fault) => Err(fault),
                },
            )
        } else {
            None
        }
    }
}

/// The central registry for all managed application paths.
pub struct PathRegistry {
    studio: String,
    project_id: String,
    app_id: String,
    base_path: String,
    paths: HashMap<u64, String>,
    templates: HashMap<u64, String>,
}

impl View for PathRegistry {
    type V = RegistryView;

    closed spec fn view(&self) -> RegistryView {
        RegistryView {
            studio: self.studio@,
            project_id: self.project_id@,
            app_id: self.app_id@,
            base_path: self.base_path@,
            paths: map_texts(self.paths@),
            templates: map_texts(self.templates@),
        }
    }
}

/// The view of what resolving yields.
pub open spec fn resolution_view(r: Option<Result<String, PathRegistrationError>>) -> Option<
    Result<Seq<char>, PathFault>,
> {
    match r {
        Some(Ok(p)) => Some(Ok(p@)),
        Some(Err(e)) => Some(Err(e@)),
        None => None,
    }
}

impl PathRegistry {
    /// A registry for the given identifiers and base path, with no kind
    /// registered.
    pub fn new(studio: &str, project_id: &str, app_id: &str, base_path: &str) -> (r: Self)
        ensures
            r@ == (RegistryView {
                studio: studio@,
                project_id: project_id@,
                app_id: app_id@,
                base_path: base_path@,
                paths: Map::empty(),
                templates: Map::empty(),
            }),
    {
        let r = PathRegistry {
            studio: String::from_str(studio),
            project_id: String::from_str(project_id),
            app_id: String::from_str(app_id),
            base_path: String::from_str(base_path),
            paths: HashMap::new(),
            templates: HashMap::new(),
        };
        assert(map_texts(r.paths@) =~= Map::empty());
        assert(map_texts(r.templates@) =~= Map::empty());
        r
    }

    /// The same registry with its fixed paths and templates replaced.
    pub fn with_paths(self, paths: HashMap<u64, String>, templates: HashMap<u64, String>) -> (r:
        Self)
        ensures
            r@ == (RegistryView {
                paths: map_texts(paths@),
                templates: map_texts(templates@),
                ..self@
            }),
    {
        PathRegistry {
            studio: self.studio,
            project_id: self.project_id,
            app_id: self.app_id,
            base_path: self.base_path,
            paths,
            templates,
        }
    }

    /// The studio identifier.
    pub fn studio(&self) -> (s: &str)
        ensures
            s@ == self@.studio,
    {
        self.studio.as_str()
    }

    /// The project identifier.
    pub fn project_id(&self) -> (s: &str)
        ensures
            s@ == self@.project_id,
    {
        self.project_id.as_str()
    }

    /// The application identifier.
    pub fn app_id(&self) -> (s: &str)
        ensures
            s@ == self@.app_id,
    {
        self.app_id.as_str()
    }

    /// The absolute root directory of the project:
    /// `<base path>/<studio>/<project id>`. Every path that the registry hands
    /// out is set below it.
    pub fn project_root(&self) -> (r: String)
        ensures
            r@ == join(join(self@.base_path, self@.studio), self@.project_id),
            r@ == self@.project_root(),
    {
        let with_studio = join_paths(self.base_path.as_str(), self.studio.as_str());
        join_paths(with_studio.as_str(), self.project_id.as_str())
    }

    /// The relative path registered for `kind`, if there is one.
    pub fn get_relative(&self, kind: u64) -> (r: Option<&String>)
        ensures
            r is Some <==> self@.paths.contains_key(kind),
            r matches Some(p) ==> p@ == self@.paths[kind],
    {
        self.paths.get(&kind)
    }

    /// The absolute path for `kind`: its registered path below the project
    /// root. A kind without a registered path yields `None`.
    pub fn get(&self, kind: u64) -> (r: Option<String>)
        ensures
            text_view(r) == self@.absolute(kind),
            !self@.paths.contains_key(kind) ==> r is None,
    {
        match self.get_relative(kind) {
            Some(rel) => {
                let root = self.project_root();
                Some(join_paths(root.as_str(), rel.as_str()))
            },
            None => None,
        }
    }

    /// The absolute path for a kind that is known to have a registered path.
    /// `label` is the caller's name for the kind; it has no part in the
    /// result.
    pub fn get_or_panic(&self, kind: u64, label: &str) -> (r: String)
        requires
            self@.paths.contains_key(kind),
        ensures
            Some(r@) == self@.absolute(kind),
    {
        let root = self.project_root();
        let rel = self.paths.get(&kind).unwrap();
        join_paths(root.as_str(), rel.as_str())
    }

    /// Resolves `kind` to an absolute path.
    ///
    /// A kind with a fixed path yields that path below the project root; the
    /// fields play no part. A kind with a template has the template filled with
    /// the fields, the result validated as [`validate_filled_path`] says, and
    /// the validated path set below the project root. The values are not
    /// trusted: if the filled path fails validation, the fault is returned, so
    /// a value that would lead out of the project root, or that holds what no
    /// component may hold, is never turned into a path. A kind that was never
    /// registered yields `None`.
    pub fn resolve(&self, kind: u64, fields: &Vec<Field>) -> (r: Option<
        Result<String, PathRegistrationError>,
    >)
        ensures
            resolution_view(r) == self@.resolved(kind, field_views(fields@)),
            r is None <==> !self@.paths.contains_key(kind) && !self@.templates.contains_key(kind),
    {
        match self.paths.get(&kind) {
            Some(rel) => {
                let root = self.project_root();
                return Some(Ok(join_paths(root.as_str(), rel.as_str())));
            },
            None => {},
        }
        match self.templates.get(&kind) {
            Some(template) => {
                let filled = resolve_template(template.as_str(), fields);
                match validate_filled_path(filled.as_str()) {
                    Ok(rel) => {
                        let root = self.project_root();
                        Some(Ok(join_paths(root.as_str(), rel.as_str())))
                    },
                    Err(e) => Some(Err(PathRegistrationError::from_validation(e))),
                }
            },
            None => None,
        }
    }
}

/// The registrations that a list holds, with every text as a sequence of
/// characters.
pub open spec fn entries(list: Seq<(u64, String)>) -> Seq<(u64, Seq<char>)> {
    list.map_values(|e: (u64, String)| (e.0, e.1@))
}

/// The map that registrations amount to: each kind with the text of its latest
/// registration.
pub open spec fn collected(list: Seq<(u64, Seq<char>)>) -> Map<u64, Seq<char>>
    decreases list.len(),
{
    if list.len() == 0 {
        Map::empty()
    } else {
        collected(list.drop_last()).insert(list.last().0, list.last().1)
    }
}

/// What a plugin holds, with every text as a sequence of characters.
pub ghost struct PluginView {
    pub studio: Seq<char>,
    pub project_id: Seq<char>,
    pub app_id: Seq<char>,
    pub base_path_override: Option<Seq<char>>,
    pub registrations: Seq<(u64, Seq<char>)>,
    pub template_registrations: Seq<(u64, Seq<char>)>,
}

/// Collects the registrations from which a [`PathRegistry`] is built.
pub struct PathRegistryPlugin {
    studio: String,
    project_id: String,
    app_id: String,
    base_path_override: Option<String>,
    registrations: Vec<(u64, String)>,
    template_registrations: Vec<(u64, String)>,
}

impl View for PathRegistryPlugin {
    type V = PluginView;

    closed spec fn view(&self) -> PluginView {
        PluginView {
            studio: self.studio@,
            project_id: self.project_id@,
            app_id: self.app_id@,
            base_path_override: text_view(self.base_path_override),
            registrations: entries(self.registrations@),
            template_registrations: entries(self.template_registrations@),
        }
    }
}

/// The view of what a registration yields.
pub open spec fn registration_view(r: Result<PathRegistryPlugin, PathRegistrationError>) -> Result<
    PluginView,
    PathFault,
> {
    match r {
        Ok(p) => Ok(p@),
        Err(e) => Err(e@),
    }
}

/// The view of what normalizing a path yields.
pub open spec fn normal_view(r: Result<String, PathRegistrationError>) -> Result<
    Seq<char>,
    PathFault,
> {
    match r {
        Ok(p) => Ok(p@),
        Err(e) => Err(e@),
    }
}

/// Fills a map from a list of registrations; a later registration of a kind
/// replaces an earlier one.
fn collect(list: &Vec<(u64, String)>) -> (m: HashMap<u64, String>)
    ensures
        map_texts(m@) == collected(entries(list@)),
{
    let ghost all = entries(list@);
    let mut m: HashMap<u64, String> = HashMap::new();
    let mut i: usize = 0;
    proof {
        assert(map_texts(m@) =~= Map::empty());
    }
    while i < list.len()
        invariant
            i <= list.len(),
            all == entries(list@),
            map_texts(m@) == collected(all.take(i as int)),
        decreases list.len() - i,
    {
        let ghost before = m@;
        let kind = list[i].0;
        let text = list[i].1.clone();
        m.insert(kind, text);
        proof {
            assert(all.take(i + 1).drop_last() == all.take(i as int));
            assert(all.take(i + 1).last() == (kind, text@));
            assert(map_texts(before.insert(kind, text)) =~= map_texts(before).insert(kind, text@));
        }
        i += 1;
    }
    proof {
        assert(all.take(list@.len() as int) == all);
    }
    m
}

impl PathRegistryPlugin {
    /// A plugin for the given identifiers, with no override of the base path
    /// and nothing registered.
    pub fn new(studio: &str, project_id: &str, app_id: &str) -> (r: Self)
        ensures
            r@ == (PluginView {
                studio: studio@,
                project_id: project_id@,
                app_id: app_id@,
                base_path_override: None,
                registrations: Seq::empty(),
                template_registrations: Seq::empty(),
            }),
    {
        let r = PathRegistryPlugin {
            studio: String::from_str(studio),
            project_id: String::from_str(project_id),
            app_id: String::from_str(app_id),
            base_path_override: None,
            registrations: Vec::new(),
            template_registrations: Vec::new(),
        };
        assert(entries(r.registrations@) =~= Seq::empty());
        assert(entries(r.template_registrations@) =~= Seq::empty());
        r
    }

    /// Asks for another base path than the directory of the executable. A
    /// relative `path` is meant relative to that directory. Whether the wish is
    /// honoured is decided when the base path is resolved.
    pub fn with_base_path(self, path: &str) -> (r: Self)
        ensures
            r@ == (PluginView { base_path_override: Some(path@), ..self@ }),
    {
        PathRegistryPlugin {
            studio: self.studio,
            project_id: self.project_id,
            app_id: self.app_id,
            base_path_override: Some(String::from_str(path)),
            registrations: self.registrations,
            template_registrations: self.template_registrations,
        }
    }

    /// The base path that was asked for, if any.
    pub fn base_path_override(&self) -> (r: Option<&String>)
        ensures
            r is Some <==> self@.base_path_override is Some,
            r matches Some(p) ==> Some(p@) == self@.base_path_override,
    {
        match &self.base_path_override {
            Some(p) => Some(p),
            None => None,
        }
    }

    /// Validates a fixed relative path and brings it into normal form.
    ///
    /// The path is trimmed of white space. It is refused when nothing is left,
    /// when it starts with `~`, when it is absolute, when a component is `.` or
    /// `..`, and when a component is not acceptable in Unicode Normalization
    /// Form C; the first of these that applies is the error. An accepted path
    /// comes back as its normalized components with `/` between them.
    pub fn validate_and_normalize(&self, relative_path: &str) -> (r: Result<
        String,
        PathRegistrationError,
    >)
        ensures
            normal_view(r) == normal_check(relative_path@),
    {
        let (_, comps) = match read_shape(relative_path) {
            Ok(shape) => shape,
            Err(e) => { return Err(PathRegistrationError::from_validation(e)); },
        };
        let ghost all = texts(comps@);
        let mut out = String::new();
        let mut i: usize = 0;
        proof {
            assert(all.skip(0) == all);
            assert(normalized(all.take(0)) =~= Seq::empty());
        }
        while i < comps.len()
            invariant
                i <= comps.len(),
                all == texts(comps@),
                all == components(trimmed(relative_path@)),
                shape_fault(trimmed(relative_path@)) is None,
                first_refused(all, false) == first_refused(all.skip(i as int), false),
                out@ == joined(normalized(all.take(i as int))),
            decreases comps.len() - i,
        {
            proof {
                assert(all.skip(i as int).len() > 0);
                assert(all.skip(i as int)[0] == comps@[i as int]@);
                assert(all.skip(i as int).drop_first() == all.skip(i + 1));
            }
            match check_normalized(&comps[i]) {
                Ok(norm) => {
                    proof {
                        let done = normalized(all.take(i as int));
                        let next = normalized(all.take(i + 1));
                        assert(next.drop_last() =~= done);
                        assert(next.last() == norm@);
                        assert(Seq::<char>::empty() + norm@ == norm@);
                    }
                    if i > 0 {
                        out.push('/');
                    }
                    out.append(norm.as_str());
                },
                Err(e) => {
                    assert(first_refused(all.skip(i as int), false) == Some(comps@[i as int]@));
                    return Err(PathRegistrationError::from_validation(e));
                },
            }
            i += 1;
        }
        proof {
            assert(all.take(comps@.len() as int) == all);
        }
        Ok(out)
    }

    /// Registers a fixed relative path for `kind`.
    ///
    /// The path is validated and normalized as [`Self::validate_and_normalize`]
    /// says. If it is accepted, the plugin comes back with the normalized path
    /// added as the latest registration; otherwise the error comes back and
    /// nothing is registered.
    pub fn register(self, kind: u64, relative_path: &str) -> (r: Result<
        Self,
        PathRegistrationError,
    >)
        ensures
            registration_view(r) == match normal_check(relative_path@) {
                Ok(path) => Ok(
                    PluginView {
                        registrations: self@.registrations.push((kind, path)),
                        ..self@
                    },
                ),
                Err(fault) => Err(fault),
            },
    {
        let normalized_path = match self.validate_and_normalize(relative_path) {
            Ok(p) => p,
            Err(e) => { return Err(e); },
        };
        let mut plugin = self;
        let ghost before = plugin.registrations@;
        plugin.registrations.push((kind, normalized_path));
        proof {
            assert(entries(plugin.registrations@) =~= entries(before).push(
                (kind, normalized_path@),
            ));
        }
        Ok(plugin)
    }

    /// Registers a path template for `kind`.
    ///
    /// The template is validated as [`validate_structural_path`] says:
    /// components that carry a placeholder are not checked, the rest of the
    /// rules holds. If it is accepted, the plugin comes back with the trimmed
    /// template added as the latest template registration; otherwise the error
    /// comes back and nothing is registered.
    pub fn register_template(self, kind: u64, template: &str) -> (r: Result<
        Self,
        PathRegistrationError,
    >)
        ensures
            registration_view(r) == match structural_check(template@) {
                Ok(accepted) => Ok(
                    PluginView {
                        template_registrations: self@.template_registrations.push(
                            (kind, accepted),
                        ),
                        ..self@
                    },
                ),
                Err(fault) => Err(fault),
            },
    {
        let accepted = match validate_structural_path(template) {
            Ok(t) => t,
            Err(e) => { return Err(PathRegistrationError::from_validation(e)); },
        };
        let mut plugin = self;
        let ghost before = plugin.template_registrations@;
        plugin.template_registrations.push((kind, accepted));
        proof {
            assert(entries(plugin.template_registrations@) =~= entries(before).push(
                (kind, accepted@),
            ));
        }
        Ok(plugin)
    }

    /// Ends the collecting: the registry for `base_path` that holds every
    /// registration made so far. Where a kind was registered more than once,
    /// the latest registration counts.
    pub fn build_registry(&self, base_path: &str) -> (r: PathRegistry)
        ensures
            r@ == (RegistryView {
                studio: self@.studio,
                project_id: self@.project_id,
                app_id: self@.app_id,
                base_path: base_path@,
                paths: collected(self@.registrations),
                templates: collected(self@.template_registrations),
            }),
    {
        let paths = collect(&self.registrations);
        let templates = collect(&self.template_registrations);
        PathRegistry::new(
            self.studio.as_str(),
            self.project_id.as_str(),
            self.app_id.as_str(),
            base_path,
        ).with_paths(paths, templates)
    }
}

impl Default for PathRegistryPlugin {
    /// A plugin with stand-in identifiers.
    fn default() -> (r: Self)
        ensures
            r@ == (PluginView {
                studio: "default_studio"@,
                project_id: "default_project"@,
                app_id: "default_app"@,
                base_path_override: None,
                registrations: Seq::empty(),
                template_registrations: Seq::empty(),
            }),
    {
        PathRegistryPlugin::new("default_studio", "default_project", "default_app")
    }
}

/// Resolving is repeatable: two answers of one registry to the same kind and
/// the same fields are the same, whether both are paths, both are faults or
/// both are nothing.
pub proof fn lemma_resolve_is_repeatable(
    registry: PathRegistry,
    kind: u64,
    fields: Seq<Field>,
    first: Option<Result<String, PathRegistrationError>>,
    second: Option<Result<String, PathRegistrationError>>,
)
    requires
        resolution_view(first) == registry@.resolved(kind, field_views(fields)),
        resolution_view(second) == registry@.resolved(kind, field_views(fields)),
    ensures
        resolution_view(first) == resolution_view(second),
{
}

/// A kind that was never registered resolves to nothing, and has no path.
pub proof fn lemma_unregistered_is_absent(
    registry: RegistryView,
    kind: u64,
    fields: Seq<(Seq<char>, Seq<char>)>,
)
    requires
        !registry.paths.contains_key(kind),
        !registry.templates.contains_key(kind),
    ensures
        registry.resolved(kind, fields) is None,
        registry.absolute(kind) is None,
{
}

/// The latest registration of a kind is the one that counts, and the
/// registrations of other kinds are not touched by it.
pub proof fn lemma_latest_registration_counts(
    list: Seq<(u64, Seq<char>)>,
    kind: u64,
    text: Seq<char>,
    other: u64,
)
    requires
        other != kind,
    ensures
        collected(list.push((kind, text))).contains_key(kind),
        collected(list.push((kind, text)))[kind] == text,
        collected(list.push((kind, text))).contains_key(other) == collected(list).contains_key(
            other,
        ),
        collected(list).contains_key(other) ==> collected(list.push((kind, text)))[other]
            == collected(list)[other],
{
    assert(list.push((kind, text)).drop_last() == list);
}

/// Every path that a registry hands out for a template lies below the project
/// root and is made of acceptable components: its components are those of the
/// project root, followed by components of which none is `.` or `..` and each
/// passes the component rules in normal form.
pub proof fn lemma_resolved_template_stays_below_root(
    registry: RegistryView,
    kind: u64,
    fields: Seq<(Seq<char>, Seq<char>)>,
)
    requires
        !registry.paths.contains_key(kind),
        registry.resolved(kind, fields) matches Some(Ok(_)),
    ensures
        ({
            let filled = substitute(registry.templates[kind], fields);
            let rel = filled_check(filled)->Ok_0;
            &&& registry.resolved(kind, fields) == Some(
                Ok::<Seq<char>, PathFault>(join(registry.project_root(), rel)),
            )
            &&& components(join(registry.project_root(), rel)) == components(
                registry.project_root(),
            ) + components(rel)
            &&& !has_navigation(components(rel))
            &&& forall|i: int|
                0 <= i < components(rel).len() ==> component_ok(
                    nfc(#[trigger] components(rel)[i]),
                )
        }),
{
    let filled = substitute(registry.templates[kind], fields);
    lemma_accepted_path_stays_below(filled, false, registry.project_root());
    lemma_filled_path_holds_acceptable_components(filled);
}

} // verus!
