//! The plugin commands: what they print.

use crate::text as t;
use vstd::prelude::*;
use vstd::string::*;

verus! {

#[derive(Debug, PartialEq, Eq)]
pub struct PluginCommand {
    pub command: PluginSubcommand,
}

#[derive(Debug, PartialEq, Eq)]
pub enum PluginSubcommand {
    /// List the plugins that were found.
    List { json: bool },
    /// Show one plugin, and whether it is valid.
    Inspect { name: String, json: bool },
    /// Validate a plugin's directory or manifest.
    Validate { path: String, json: bool },
    /// Copy a plugin into the home.
    Install { path: String, enable: bool, force: bool, json: bool },
    /// Show where plugins are searched, first things first.
    Roots { json: bool },
    /// List what enabled plugins contribute.
    Assets { kind: Option<String>, json: bool },
    Enable { name: String, feature: Option<String>, json: bool },
    Disable { name: String, feature: Option<String>, json: bool },
}

/// Where plugins are searched.
#[derive(Debug, PartialEq, Eq)]
pub struct PluginRoot<S> {
    pub scope: S,
    pub path: S,
}

impl View for PluginRoot<String> {
    type V = PluginRoot<Seq<char>>;

    open spec fn view(&self) -> PluginRoot<Seq<char>> {
        PluginRoot {
            scope: self.scope@,
            path: self.path@,
        }
    }
}

/// A plugin in the list.
#[derive(Debug, PartialEq, Eq)]
pub struct PluginRow<S> {
    pub name: S,
    pub version: S,
    pub scope: S,
    pub features: usize,
    pub enabled: bool,
    pub valid: bool,
    pub root: S,
}

impl View for PluginRow<String> {
    type V = PluginRow<Seq<char>>;

    open spec fn view(&self) -> PluginRow<Seq<char>> {
        PluginRow {
            name: self.name@,
            version: self.version@,
            scope: self.scope@,
            features: self.features,
            enabled: self.enabled,
            valid: self.valid,
            root: self.root@,
        }
    }
}

pub open spec fn roots(v: Seq<PluginRoot<String>>) -> Seq<PluginRoot<Seq<char>>> {
    v.map_values(|x: PluginRoot<String>| x@)
}

pub open spec fn plugin_rows(v: Seq<PluginRow<String>>) -> Seq<PluginRow<Seq<char>>> {
    v.map_values(|x: PluginRow<String>| x@)
}

pub open spec fn root_line(indent: Seq<char>, root: PluginRoot<Seq<char>>) -> Seq<char> {
    indent + root.scope + ": "@ + root.path
}

pub open spec fn root_lines(indent: Seq<char>, list: Seq<PluginRoot<Seq<char>>>) -> Seq<Seq<char>> {
    list.map_values(|root: PluginRoot<Seq<char>>| root_line(indent, root))
}

/// The search roots, one to a line.
pub fn print_roots(indent: &str, list: &Vec<PluginRoot<String>>) -> (r: Vec<String>)
    ensures
        t::texts(r@) == root_lines(indent@, roots(list@)),
{
    let mut r: Vec<String> = Vec::new();
    let mut i: usize = 0;
    while i < list.len()
        invariant
            i <= list@.len(),
            r@.len() == i,
            forall|k: int| 0 <= k < i ==> (#[trigger] r@[k])@ == root_line(indent@, list@[k]@),
        decreases list@.len() - i,
    {
        r.push(indent.to_owned().concat(list[i].scope.as_str()).concat(": ").concat(list[i].path.as_str()));
        i += 1;
    }
    assert(t::texts(r@) =~= root_lines(indent@, roots(list@)));
    r
}

pub open spec fn yes_no(b: bool) -> Seq<char> {
    if b {
        "yes"@
    } else {
        "no"@
    }
}

pub open spec fn ok_invalid(b: bool) -> Seq<char> {
    if b {
        "ok"@
    } else {
        "invalid"@
    }
}

pub open spec fn plugin_line(p: PluginRow<Seq<char>>) -> Seq<char> {
    t::padded(p.name, 28) + " "@ + t::padded(p.version, 10) + " "@ + t::padded(p.scope, 10) + " "@ + t::padded(
        t::decimal(p.features as nat),
        8,
    ) + " "@ + t::padded(yes_no(p.enabled), 8) + " "@ + t::padded(ok_invalid(p.valid), 8) + " "@ + p.root
}

pub open spec fn plugin_title() -> Seq<char> {
    t::padded("PLUGIN"@, 28) + " "@ + t::padded("VERSION"@, 10) + " "@ + t::padded("SCOPE"@, 10) + " "@ + t::padded(
        "FEATURES"@,
        8,
    ) + " "@ + t::padded("ENABLED"@, 8) + " "@ + t::padded("STATUS"@, 8) + " ROOT"@
}

/// The list of plugins; where there are none, where they were searched.
pub open spec fn listing(list: Seq<PluginRow<Seq<char>>>, searched: Seq<PluginRoot<Seq<char>>>) -> Seq<Seq<char>> {
    if list.len() == 0 {
        seq!["No plugins found."@, "Search roots:"@] + root_lines("  "@, searched)
    } else {
        seq![plugin_title()] + list.map_values(|p: PluginRow<Seq<char>>| plugin_line(p))
    }
}


fn print_plugin(p: &PluginRow<String>) -> (r: String)
    ensures
        r@ == plugin_line(p@),
{
    let enabled = if p.enabled {
        "yes"
    } else {
        "no"
    };
    let valid = if p.valid {
        "ok"
    } else {
        "invalid"
    };
    t::pad_right(p.name.as_str(), 28).concat(" ").concat(t::pad_right(p.version.as_str(), 10).as_str()).concat(
        " ",
    ).concat(t::pad_right(p.scope.as_str(), 10).as_str()).concat(" ").concat(
        t::pad_right(t::usize_text(p.features).as_str(), 8).as_str(),
    ).concat(" ").concat(t::pad_right(enabled, 8).as_str()).concat(" ").concat(
        t::pad_right(valid, 8).as_str(),
    ).concat(" ").concat(p.root.as_str())
}

pub fn list_plugins(list: &Vec<PluginRow<String>>, searched: &Vec<PluginRoot<String>>) -> (r: Vec<String>)
    ensures
        t::texts(r@) == listing(plugin_rows(list@), roots(searched@)),
{
    if list.len() == 0 {
        let mut lines = t::two_lines("No plugins found.".to_owned(), "Search roots:".to_owned());
        t::append_lines(&mut lines, &print_roots("  ", searched));
        return lines;
    }
    let title = t::pad_right("PLUGIN", 28).concat(" ").concat(t::pad_right("VERSION", 10).as_str()).concat(
        " ",
    ).concat(t::pad_right("SCOPE", 10).as_str()).concat(" ").concat(t::pad_right("FEATURES", 8).as_str()).concat(
        " ",
    ).concat(t::pad_right("ENABLED", 8).as_str()).concat(" ").concat(t::pad_right("STATUS", 8).as_str()).concat(
        " ROOT",
    );
    let mut lines = t::one_line(title);
    let mut body: Vec<String> = Vec::new();
    let mut i: usize = 0;
    while i < list.len()
        invariant
            i <= list@.len(),
            body@.len() == i,
            forall|k: int| 0 <= k < i ==> (#[trigger] body@[k])@ == plugin_line(list@[k]@),
        decreases list@.len() - i,
    {
        body.push(print_plugin(&list[i]));
        i += 1;
    }
    assert(t::texts(body@) =~= plugin_rows(list@).map_values(|p: PluginRow<Seq<char>>| plugin_line(p)));
    t::append_lines(&mut lines, &body);
    lines
}

/// Whether a plugin is valid, and why not.
#[derive(Debug, PartialEq, Eq)]
pub struct PluginValidationReport<L> {
    pub valid: bool,
    pub errors: L,
    pub warnings: L,
}

impl View for PluginValidationReport<Vec<String>> {
    type V = PluginValidationReport<Seq<Seq<char>>>;

    open spec fn view(&self) -> PluginValidationReport<Seq<Seq<char>>> {
        PluginValidationReport {
            valid: self.valid,
            errors: t::texts(self.errors@),
            warnings: t::texts(self.warnings@),
        }
    }
}

impl PluginValidationReport<Seq<Seq<char>>> {
    pub open spec fn lines(self) -> Seq<Seq<char>> {
        seq!["valid: "@ + t::truth_word(self.valid)] + t::labelled("error: "@, self.errors) + t::labelled(
            "warning: "@,
            self.warnings,
        )
    }
}

pub fn print_validation(report: &PluginValidationReport<Vec<String>>) -> (r: Vec<String>)
    ensures
        t::texts(r@) == report@.lines(),
{
    let mut lines = t::one_line("valid: ".to_owned().concat(t::truth_text(report.valid)));
    t::append_lines(&mut lines, &t::label_each("error: ", &report.errors));
    t::append_lines(&mut lines, &t::label_each("warning: ", &report.warnings));
    lines
}

/// What a validation prints, and the error it ends with; in JSON it prints no lines.
pub fn validate_plugin(report: &PluginValidationReport<Vec<String>>, json: bool) -> (r: (
    Vec<String>,
    Option<&'static str>,
))
    ensures
        t::texts(r.0@) == if json {
            Seq::<Seq<char>>::empty()
        } else {
            report@.lines()
        },
        t::opt_str(r.1) == if report.valid {
            None
        } else {
            Some("plugin is invalid"@)
        },
{
    let lines = if json {
        t::no_lines()
    } else {
        print_validation(report)
    };
    let error: Option<&'static str> = if report.valid {
        None
    } else {
        Some("plugin is invalid")
    };
    (lines, error)
}

pub open spec fn feature_note(feature: Option<Seq<char>>) -> Seq<char> {
    match feature {
        Some(f) => " [feature:"@ + f + "]"@,
        None => Seq::empty(),
    }
}

/// What is said of a contribution that belongs to a feature.
pub fn feature_suffix(feature: Option<&str>) -> (r: String)
    ensures
        r@ == feature_note(t::opt_str(feature)),
{
    match feature {
        Some(f) => " [feature:".to_owned().concat(f).concat("]"),
        None => t::empty_text(),
    }
}

/// Something that a plugin contributes.
#[derive(Debug, PartialEq, Eq)]
pub struct Contribution<S> {
    pub name: S,
    pub feature: Option<S>,
    pub path: S,
}

impl View for Contribution<String> {
    type V = Contribution<Seq<char>>;

    open spec fn view(&self) -> Contribution<Seq<char>> {
        Contribution {
            name: self.name@,
            feature: t::opt_view(self.feature),
            path: self.path@,
        }
    }
}

pub open spec fn contributions(v: Seq<Contribution<String>>) -> Seq<Contribution<Seq<char>>> {
    v.map_values(|x: Contribution<String>| x@)
}

pub open spec fn contribution_line(c: Contribution<Seq<char>>) -> Seq<char> {
    "  "@ + c.name + feature_note(c.feature) + " -> "@ + c.path
}

/// A part on contributions; nothing where there are none.
pub open spec fn contribution_lines(title: Seq<char>, list: Seq<Contribution<Seq<char>>>) -> Seq<Seq<char>> {
    if list.len() == 0 {
        Seq::empty()
    } else {
        seq![title] + list.map_values(|c: Contribution<Seq<char>>| contribution_line(c))
    }
}

pub fn print_contributions(title: &str, list: &Vec<Contribution<String>>) -> (r: Vec<String>)
    ensures
        t::texts(r@) == contribution_lines(title@, contributions(list@)),
{
    if list.len() == 0 {
        return t::no_lines();
    }
    let mut lines = t::one_line(title.to_owned());
    let mut body: Vec<String> = Vec::new();
    let mut i: usize = 0;
    while i < list.len()
        invariant
            i <= list@.len(),
            body@.len() == i,
            forall|k: int| 0 <= k < i ==> (#[trigger] body@[k])@ == contribution_line(list@[k]@),
        decreases list@.len() - i,
    {
        let c = &list[i];
        let feature: Option<&str> = match &c.feature {
            Some(f) => Some(f.as_str()),
            None => None,
        };
        body.push(
            "  ".to_owned().concat(c.name.as_str()).concat(feature_suffix(feature).as_str()).concat(" -> ").concat(
                c.path.as_str(),
            ),
        );
        i += 1;
    }
    assert(t::texts(body@) =~= contributions(list@).map_values(
        |c: Contribution<Seq<char>>| contribution_line(c),
    ));
    t::append_lines(&mut lines, &body);
    lines
}

/// A feature of a plugin.
#[derive(Debug, PartialEq, Eq)]
pub struct PluginFeature<S> {
    pub name: S,
    pub kind: S,
    pub default_enabled: bool,
    pub enabled: bool,
    pub description: S,
}

impl View for PluginFeature<String> {
    type V = PluginFeature<Seq<char>>;

    open spec fn view(&self) -> PluginFeature<Seq<char>> {
        PluginFeature {
            name: self.name@,
            kind: self.kind@,
            default_enabled: self.default_enabled,
            enabled: self.enabled,
            description: self.description@,
        }
    }
}

pub open spec fn features(v: Seq<PluginFeature<String>>) -> Seq<PluginFeature<Seq<char>>> {
    v.map_values(|x: PluginFeature<String>| x@)
}

pub open spec fn feature_line(f: PluginFeature<Seq<char>>) -> Seq<char> {
    "  "@ + f.name + " ["@ + f.kind + (if f.default_enabled {
        " default"@
    } else {
        Seq::empty()
    }) + "] "@ + (if f.enabled {
        "enabled"@
    } else {
        "disabled"@
    }) + " - "@ + f.description
}

pub open spec fn feature_lines(list: Seq<PluginFeature<Seq<char>>>) -> Seq<Seq<char>> {
    if list.len() == 0 {
        Seq::empty()
    } else {
        seq!["features:"@] + list.map_values(|f: PluginFeature<Seq<char>>| feature_line(f))
    }
}

pub fn print_features(list: &Vec<PluginFeature<String>>) -> (r: Vec<String>)
    ensures
        t::texts(r@) == feature_lines(features(list@)),
{
    if list.len() == 0 {
        return t::no_lines();
    }
    let mut lines = t::one_line("features:".to_owned());
    let mut body: Vec<String> = Vec::new();
    let mut i: usize = 0;
    while i < list.len()
        invariant
            i <= list@.len(),
            body@.len() == i,
            forall|k: int| 0 <= k < i ==> (#[trigger] body@[k])@ == feature_line(list@[k]@),
        decreases list@.len() - i,
    {
        let f = &list[i];
        let default = if f.default_enabled {
            " default".to_owned()
        } else {
            t::empty_text()
        };
        let enabled = if f.enabled {
            "enabled"
        } else {
            "disabled"
        };
        body.push(
            "  ".to_owned().concat(f.name.as_str()).concat(" [").concat(f.kind.as_str()).concat(
                default.as_str(),
            ).concat("] ").concat(enabled).concat(" - ").concat(f.description.as_str()),
        );
        i += 1;
    }
    assert(t::texts(body@) =~= features(list@).map_values(|f: PluginFeature<Seq<char>>| feature_line(f)));
    t::append_lines(&mut lines, &body);
    lines
}

pub open spec fn permission_line(label: Seq<char>, values: Seq<Seq<char>>) -> Seq<Seq<char>> {
    if values.len() == 0 {
        Seq::empty()
    } else {
        seq!["  "@ + label + ": "@ + t::joined(values, ", "@)]
    }
}

/// A line on permissions; none where there are none.
pub fn print_permission_list(label: &str, values: &Vec<String>) -> (r: Vec<String>)
    ensures
        t::texts(r@) == permission_line(label@, t::texts(values@)),
{
    if values.len() == 0 {
        t::no_lines()
    } else {
        t::one_line("  ".to_owned().concat(label).concat(": ").concat(t::join(values, ", ").as_str()))
    }
}

/// What a plugin may do.
#[derive(Debug, PartialEq, Eq)]
pub struct Permissions<L> {
    pub filesystem: L,
    pub egress: L,
    pub secrets: L,
}

impl View for Permissions<Vec<String>> {
    type V = Permissions<Seq<Seq<char>>>;

    open spec fn view(&self) -> Permissions<Seq<Seq<char>>> {
        Permissions {
            filesystem: t::texts(self.filesystem@),
            egress: t::texts(self.egress@),
            secrets: t::texts(self.secrets@),
        }
    }
}

impl Permissions<Seq<Seq<char>>> {
    pub open spec fn lines(self) -> Seq<Seq<char>> {
        if self.filesystem.len() == 0 && self.egress.len() == 0 && self.secrets.len() == 0 {
            Seq::empty()
        } else {
            seq!["effective permissions:"@] + permission_line("filesystem"@, self.filesystem) + permission_line(
                "egress"@,
                self.egress,
            ) + permission_line("secrets"@, self.secrets)
        }
    }
}

pub fn print_permissions(p: &Permissions<Vec<String>>) -> (r: Vec<String>)
    ensures
        t::texts(r@) == p@.lines(),
{
    if p.filesystem.len() == 0 && p.egress.len() == 0 && p.secrets.len() == 0 {
        return t::no_lines();
    }
    let mut lines = t::one_line("effective permissions:".to_owned());
    t::append_lines(&mut lines, &print_permission_list("filesystem", &p.filesystem));
    t::append_lines(&mut lines, &print_permission_list("egress", &p.egress));
    t::append_lines(&mut lines, &print_permission_list("secrets", &p.secrets));
    lines
}

/// A plugin in full.
pub struct PluginDetail {
    pub name: String,
    pub version: String,
    pub scope: String,
    pub root: String,
    pub manifest: String,
    pub enabled: bool,
    pub description: String,
    pub features: Vec<PluginFeature<String>>,
    pub skills: Vec<Contribution<String>>,
    pub tools: Vec<Contribution<String>>,
    pub commands: Vec<Contribution<String>>,
    pub permissions: Permissions<Vec<String>>,
    pub validation: PluginValidationReport<Vec<String>>,
}

impl PluginDetail {
    pub open spec fn head(self) -> Seq<Seq<char>> {
        seq![
            "plugin: "@ + self.name@,
            "version: "@ + self.version@,
            "scope: "@ + self.scope@,
            "root: "@ + self.root@,
            "manifest: "@ + self.manifest@,
            "enabled: "@ + t::truth_word(self.enabled),
            "description: "@ + self.description@,
        ]
    }

    pub open spec fn lines(self) -> Seq<Seq<char>> {
        self.head() + feature_lines(features(self.features@)) + contribution_lines(
            "skills:"@,
            contributions(self.skills@),
        ) + contribution_lines("tools:"@, contributions(self.tools@)) + contribution_lines(
            "commands:"@,
            contributions(self.commands@),
        ) + self.permissions@.lines() + self.validation@.lines()
    }
}

/// The report on a plugin; an error where there is no such plugin.
pub fn inspect_plugin(name: &str, found: Option<&PluginDetail>) -> (r: Result<Vec<String>, String>)
    ensures
        match found {
            None => r matches Err(message) && message@ == "plugin not found: "@ + name@,
            Some(p) => r matches Ok(lines) && t::texts(lines@) == p.lines(),
        },
{
    let p = match found {
        None => return Err("plugin not found: ".to_owned().concat(name)),
        Some(p) => p,
    };
    let mut lines = t::two_lines(
        "plugin: ".to_owned().concat(p.name.as_str()),
        "version: ".to_owned().concat(p.version.as_str()),
    );
    t::add_line(&mut lines, "scope: ".to_owned().concat(p.scope.as_str()));
    t::add_line(&mut lines, "root: ".to_owned().concat(p.root.as_str()));
    t::add_line(&mut lines, "manifest: ".to_owned().concat(p.manifest.as_str()));
    t::add_line(&mut lines, "enabled: ".to_owned().concat(t::truth_text(p.enabled)));
    t::add_line(&mut lines, "description: ".to_owned().concat(p.description.as_str()));
    assert(t::texts(lines@) =~= p.head());
    t::append_lines(&mut lines, &print_features(&p.features));
    t::append_lines(&mut lines, &print_contributions("skills:", &p.skills));
    t::append_lines(&mut lines, &print_contributions("tools:", &p.tools));
    t::append_lines(&mut lines, &print_contributions("commands:", &p.commands));
    t::append_lines(&mut lines, &print_permissions(&p.permissions));
    t::append_lines(&mut lines, &print_validation(&p.validation));
    Ok(lines)
}

/// What is said once a plugin, or a feature of it, was switched on or off.
pub fn set_plugin_enabled(plugin: &str, feature: Option<&str>, enabled: bool, config: &str) -> (r: Vec<String>)
    ensures
        t::texts(r@) == seq![
            (if enabled {
                "enabled"@
            } else {
                "disabled"@
            }) + " "@ + (match feature {
                Some(f) => "feature "@ + plugin@ + "/"@ + f@,
                None => "plugin "@ + plugin@,
            }),
            "config: "@ + config@,
        ],
{
    let word = if enabled {
        "enabled"
    } else {
        "disabled"
    };
    let what = match feature {
        Some(f) => "feature ".to_owned().concat(plugin).concat("/").concat(f),
        None => "plugin ".to_owned().concat(plugin),
    };
    t::two_lines(
        word.to_owned().concat(" ").concat(what.as_str()),
        "config: ".to_owned().concat(config),
    )
}

/// What is said once a plugin was installed.
pub fn install_plugin(
    name: &str,
    version: &str,
    source: &str,
    destination: &str,
    enabled: bool,
    replaced: bool,
) -> (r: Vec<String>)
    ensures
        t::texts(r@) == t::added(
            seq![
                "installed plugin "@ + name@ + " v"@ + version@,
                "source: "@ + source@,
                "destination: "@ + destination@,
                "enabled: "@ + t::truth_word(enabled),
            ],
            replaced,
            "replaced: true"@,
        ),
{
    let mut lines = t::two_lines(
        "installed plugin ".to_owned().concat(name).concat(" v").concat(version),
        "source: ".to_owned().concat(source),
    );
    t::add_line(&mut lines, "destination: ".to_owned().concat(destination));
    t::add_line(&mut lines, "enabled: ".to_owned().concat(t::truth_text(enabled)));
    assert(t::texts(lines@) =~= seq![
        "installed plugin "@ + name@ + " v"@ + version@,
        "source: "@ + source@,
        "destination: "@ + destination@,
        "enabled: "@ + t::truth_word(enabled),
    ]);
    t::add_if(&mut lines, replaced, "replaced: true");
    lines
}

/// Something that an enabled plugin contributes.
#[derive(Debug, PartialEq, Eq)]
pub struct PluginAsset<S> {
    pub plugin: S,
    pub kind: S,
    pub name: S,
    pub feature: Option<S>,
    pub path: S,
}

impl View for PluginAsset<String> {
    type V = PluginAsset<Seq<char>>;

    open spec fn view(&self) -> PluginAsset<Seq<char>> {
        PluginAsset {
            plugin: self.plugin@,
            kind: self.kind@,
            name: self.name@,
            feature: t::opt_view(self.feature),
            path: self.path@,
        }
    }
}

pub type AssetView = PluginAsset<Seq<char>>;

pub open spec fn assets(v: Seq<PluginAsset<String>>) -> Seq<AssetView> {
    v.map_values(|x: PluginAsset<String>| x@)
}

pub open spec fn asset_line(a: AssetView) -> Seq<char> {
    t::padded(a.plugin, 24) + " "@ + t::padded(a.kind, 10) + " "@ + t::padded(a.name, 24) + " "@ + t::padded(
        match a.feature {
            Some(f) => f,
            None => "-"@,
        },
        24,
    ) + " "@ + a.path
}

pub open spec fn asset_title() -> Seq<char> {
    t::padded("PLUGIN"@, 24) + " "@ + t::padded("KIND"@, 10) + " "@ + t::padded("ASSET"@, 24) + " "@ + t::padded(
        "FEATURE"@,
        24,
    ) + " PATH"@
}

/// The assets of one kind, or all.
pub open spec fn kept(list: Seq<AssetView>, kind: Option<Seq<char>>) -> Seq<AssetView>
    decreases list.len(),
{
    if list.len() == 0 {
        Seq::empty()
    } else if kind is None || kind == Some(list.last().kind) {
        kept(list.drop_last(), kind).push(list.last())
    } else {
        kept(list.drop_last(), kind)
    }
}

pub open spec fn asset_lines(list: Seq<AssetView>) -> Seq<Seq<char>> {
    if list.len() == 0 {
        seq!["No enabled plugin assets."@]
    } else {
        seq![asset_title()] + list.map_values(|a: AssetView| asset_line(a))
    }
}

/// The places of the assets of one kind, or of all.
pub fn retain_assets(list: &Vec<PluginAsset<String>>, kind: Option<&str>) -> (r: Vec<usize>)
    ensures
        forall|k: int| 0 <= k < r@.len() ==> #[trigger] r@[k] < list@.len(),
        r@.map_values(|i: usize| list@[i as int]@) == kept(assets(list@), t::opt_str(kind)),
{
    let ghost all = assets(list@);
    let ghost wanted = t::opt_str(kind);
    let mut r: Vec<usize> = Vec::new();
    let mut i: usize = 0;
    assert(all.take(0) =~= Seq::<AssetView>::empty());
    assert(r@.map_values(|i: usize| list@[i as int]@) =~= Seq::<AssetView>::empty());
    while i < list.len()
        invariant
            i <= list@.len(),
            all == assets(list@),
            wanted == t::opt_str(kind),
            forall|k: int| 0 <= k < r@.len() ==> #[trigger] r@[k] < list@.len(),
            r@.map_values(|i: usize| list@[i as int]@) == kept(all.take(i as int), wanted),
        decreases list@.len() - i,
    {
        let ghost before = r@.map_values(|i: usize| list@[i as int]@);
        assert(all.take(i + 1).drop_last() =~= all.take(i as int));
        assert(all.take(i + 1).last() == list@[i as int]@);
        let keep = match kind {
            Some(k) => t::same(list[i].kind.as_str(), k),
            None => true,
        };
        if keep {
            r.push(i);
            assert(r@.map_values(|i: usize| list@[i as int]@) =~= before.push(list@[i as int]@));
        }
        i += 1;
    }
    assert(all.take(all.len() as int) =~= all);
    r
}

/// The table of assets of one kind, or of all.
pub fn list_assets(list: &Vec<PluginAsset<String>>, kind: Option<&str>) -> (r: Vec<String>)
    ensures
        t::texts(r@) == asset_lines(kept(assets(list@), t::opt_str(kind))),
{
    let places = retain_assets(list, kind);
    let ghost all = kept(assets(list@), t::opt_str(kind));
    assert(all.len() == places@.len());
    if places.len() == 0 {
        return t::one_line("No enabled plugin assets.".to_owned());
    }
    let title = t::pad_right("PLUGIN", 24).concat(" ").concat(t::pad_right("KIND", 10).as_str()).concat(" ").concat(
        t::pad_right("ASSET", 24).as_str(),
    ).concat(" ").concat(t::pad_right("FEATURE", 24).as_str()).concat(" PATH");
    let mut lines = t::one_line(title);
    let mut body: Vec<String> = Vec::new();
    let mut i: usize = 0;
    while i < places.len()
        invariant
            i <= places@.len(),
            forall|k: int| 0 <= k < places@.len() ==> #[trigger] places@[k] < list@.len(),
            places@.map_values(|i: usize| list@[i as int]@) == all,
            body@.len() == i,
            forall|k: int| 0 <= k < i ==> (#[trigger] body@[k])@ == asset_line(all[k]),
        decreases places@.len() - i,
    {
        let a = &list[places[i]];
        assert(all[i as int] == a@);
        let feature = match &a.feature {
            Some(f) => f.clone(),
            None => "-".to_owned(),
        };
        body.push(
            t::pad_right(a.plugin.as_str(), 24).concat(" ").concat(t::pad_right(a.kind.as_str(), 10).as_str()).concat(
                " ",
            ).concat(t::pad_right(a.name.as_str(), 24).as_str()).concat(" ").concat(
                t::pad_right(feature.as_str(), 24).as_str(),
            ).concat(" ").concat(a.path.as_str()),
        );
        i += 1;
    }
    assert(t::texts(body@) =~= all.map_values(|a: AssetView| asset_line(a)));
    t::append_lines(&mut lines, &body);
    lines
}

proof fn lemma_kept(list: Seq<AssetView>, kind: Option<Seq<char>>, i: int)
    requires
        0 <= i < kept(list, kind).len(),
    ensures
        kind matches Some(k) ==> kept(list, kind)[i].kind == k,
    decreases list.len(),
{
    let front = kept(list.drop_last(), kind);
    if kept(list, kind).len() == front.len() || i < front.len() {
        lemma_kept(list.drop_last(), kind, i);
    }
}

/// A table of one kind shows no other.
pub proof fn law_only_the_kind_is_listed(list: Seq<AssetView>, kind: Seq<char>, i: int)
    requires
        0 <= i < kept(list, Some(kind)).len(),
    ensures
        kept(list, Some(kind))[i].kind == kind,
{
    lemma_kept(list, Some(kind), i);
}

/// Every plugin has a line with its place; where there is none, the places that
/// were searched are told.
pub proof fn law_every_plugin_has_a_line(
    list: Seq<PluginRow<Seq<char>>>,
    searched: Seq<PluginRoot<Seq<char>>>,
    i: int,
)
    requires
        0 <= i,
    ensures
        i < list.len() ==> listing(list, searched).len() == list.len() + 1 && t::ends(
            listing(list, searched)[i + 1],
            list[i].root,
        ) && t::starts(listing(list, searched)[i + 1], list[i].name),
        list.len() == 0 && i < searched.len() ==> listing(list, searched).len() == searched.len() + 2 && listing(
            list,
            searched,
        )[i + 2] == "  "@ + searched[i].scope + ": "@ + searched[i].path,
{
    if i < list.len() {
        let p = list[i];
        let line = plugin_line(p);
        assert(listing(list, searched)[i + 1] == line);
        assert(line.subrange(line.len() - p.root.len(), line.len() as int) =~= p.root);
        let wide = t::padded(p.name, 28);
        lemma_padded_start(p.name, 28);
        assert(line.subrange(0, p.name.len() as int) =~= wide.subrange(0, p.name.len() as int));
    }
}

proof fn lemma_padded_start(s: Seq<char>, n: nat)
    ensures
        t::padded(s, n).len() >= s.len(),
        t::padded(s, n).subrange(0, s.len() as int) == s,
    decreases n,
{
    assert(t::padded(s, n).subrange(0, s.len() as int) =~= s);
}

/// The assets of a kind are all of that kind, in their order; without a kind,
/// all of them.
pub proof fn law_the_assets_of_a_kind_are_kept(list: Seq<AssetView>, kind: Seq<char>)
    ensures
        kept(list, Some(kind)) == list.filter(|a: AssetView| a.kind == kind),
        kept(list, None) == list,
    decreases list.len(),
{
    reveal(Seq::filter);
    if list.len() > 0 {
        law_the_assets_of_a_kind_are_kept(list.drop_last(), kind);
        assert(list.drop_last().push(list.last()) =~= list);
    }
}

/// The report on a plugin says whether it is valid, then each error and each
/// warning.
pub proof fn law_a_plugin_is_reported_on(r: PluginValidationReport<Seq<Seq<char>>>, i: int)
    ensures
        r.lines().len() == 1 + r.errors.len() + r.warnings.len(),
        r.valid ==> r.lines()[0] == "valid: "@ + "true"@,
        !r.valid ==> r.lines()[0] == "valid: "@ + "false"@,
        0 <= i < r.errors.len() ==> r.lines()[1 + i] == "error: "@ + r.errors[i],
        0 <= i < r.warnings.len() ==> r.lines()[1 + r.errors.len() + i] == "warning: "@ + r.warnings[i],
{
}

/// What a plugin brings is listed by name and path; what it may do is listed
/// where there is anything.
pub proof fn law_what_a_plugin_brings_is_listed(
    title: Seq<char>,
    list: Seq<Contribution<Seq<char>>>,
    p: Permissions<Seq<Seq<char>>>,
    i: int,
)
    requires
        0 <= i < list.len(),
    ensures
        contribution_lines(title, list).len() == list.len() + 1,
        contribution_lines(title, list)[0] == title,
        t::starts(contribution_lines(title, list)[i + 1], "  "@ + list[i].name),
        t::ends(contribution_lines(title, list)[i + 1], " -> "@ + list[i].path),
        contribution_lines(title, Seq::empty()).len() == 0,
        p.filesystem.len() == 0 && p.egress.len() == 0 && p.secrets.len() == 0 <==> p.lines().len() == 0,
        p.egress.len() > 0 ==> p.lines().contains("  "@ + "egress"@ + ": "@ + t::joined(p.egress, ", "@)),
        p.secrets.len() > 0 ==> p.lines().contains("  "@ + "secrets"@ + ": "@ + t::joined(p.secrets, ", "@)),
        p.filesystem.len() > 0 ==> p.lines().contains("  "@ + "filesystem"@ + ": "@ + t::joined(p.filesystem, ", "@)),
{
    let line = contribution_line(list[i]);
    assert(contribution_lines(title, list)[i + 1] == line);
    let a = "  "@ + list[i].name;
    let z = " -> "@ + list[i].path;
    assert(line.subrange(0, a.len() as int) =~= a);
    assert(line.subrange(line.len() - z.len(), line.len() as int) =~= z);
    let f = permission_line("filesystem"@, p.filesystem);
    let e = permission_line("egress"@, p.egress);
    let s = permission_line("secrets"@, p.secrets);
    let all = seq!["effective permissions:"@] + f + e + s;
    if p.filesystem.len() > 0 {
        assert(all[1] == f[0]);
    }
    if p.egress.len() > 0 {
        assert(all[1 + f.len() as int] == e[0]);
    }
    if p.secrets.len() > 0 {
        assert(all[1 + f.len() as int + e.len() as int] == s[0]);
    }
}

/// A feature is shown as it stands.
pub proof fn law_a_feature_is_shown_as_it_stands(f: PluginFeature<Seq<char>>)
    ensures
        f.enabled ==> t::has(feature_line(f), "] "@ + "enabled"@ + " - "@),
        !f.enabled ==> t::has(feature_line(f), "] "@ + "disabled"@ + " - "@),
        t::ends(feature_line(f), f.description),
{
    let a = "  "@ + f.name + " ["@ + f.kind + (if f.default_enabled {
        " default"@
    } else {
        Seq::empty()
    });
    let w = if f.enabled {
        "enabled"@
    } else {
        "disabled"@
    };
    let all = feature_line(f);
    t::lemma_has_part(a, "] "@ + w + " - "@, f.description);
    assert(a + ("] "@ + w + " - "@) + f.description =~= all);
    assert(all.subrange(all.len() - f.description.len(), all.len() as int) =~= f.description);
}

} // verus!
