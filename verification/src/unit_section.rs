//! The `[Unit]` section of a systemd unit file, read from a parsed INI file.
//!
//! Reading and parsing the file is the caller's part. It hands over the
//! sections it found, names and keys in lower case; the settings are picked
//! out and shown here.

use crate::text::{lemma_position, position};
use vstd::prelude::*;
use vstd::string::StringExecFns;

verus! {

/// One `key=value` of an INI section. A key that stands alone has no value.
#[derive(Clone, Debug)]
pub struct IniValue {
    pub key: String,
    pub value: Option<String>,
}

/// One section of an INI file.
#[derive(Clone, Debug)]
pub struct IniSection {
    pub name: String,
    pub values: Vec<IniValue>,
}

pub ghost struct IniValueView {
    pub key: Seq<char>,
    pub value: Option<Seq<char>>,
}

pub ghost struct IniSectionView {
    pub name: Seq<char>,
    pub values: Seq<IniValueView>,
}

/// The text in an optional string.
pub open spec fn text_of(text: Option<String>) -> Option<Seq<char>> {
    match text {
        Some(t) => Some(t@),
        None => None,
    }
}

pub open spec fn value_views(values: Seq<IniValue>) -> Seq<IniValueView> {
    Seq::new(values.len(), |i: int| values[i]@)
}

pub open spec fn section_views(sections: Seq<IniSection>) -> Seq<IniSectionView> {
    Seq::new(sections.len(), |i: int| sections[i]@)
}

impl View for IniValue {
    type V = IniValueView;

    open spec fn view(&self) -> IniValueView {
        IniValueView { key: self.key@, value: text_of(self.value) }
    }
}

impl View for IniSection {
    type V = IniSectionView;

    open spec fn view(&self) -> IniSectionView {
        IniSectionView { name: self.name@, values: value_views(self.values@) }
    }
}

/// The settings of a `[Unit]` section. A setting that the file does not give
/// is `None`.
#[derive(Clone, Debug)]
pub struct UnitSection {
    pub description: Option<String>,
    pub documentation: Option<String>,
    pub wants: Option<String>,
    pub requires: Option<String>,
    pub requisite: Option<String>,
    pub binds_to: Option<String>,
    pub part_of: Option<String>,
    pub upholds: Option<String>,
    pub conflicts: Option<String>,
    pub before: Option<String>,
    pub after: Option<String>,
    pub on_failure: Option<String>,
    pub on_success: Option<String>,
    pub propagates_reload_to: Option<String>,
    pub reload_propagated_from: Option<String>,
    pub propagates_stop_to: Option<String>,
    pub stop_propagated_from: Option<String>,
    pub joins_namespace_of: Option<String>,
    pub requires_mounts_for: Option<String>,
    pub on_failure_job_mode: Option<String>,
    pub ignore_on_isolate: Option<bool>,
    pub stop_when_unneeded: Option<bool>,
    pub refuse_manual_start: Option<bool>,
    pub refuse_manual_stop: Option<bool>,
    pub allow_isolate: Option<bool>,
    pub default_dependencies: Option<bool>,
    pub collect_mode: Option<String>,
    pub failure_action: Option<String>,
    pub success_action: Option<String>,
}

pub ghost struct UnitSectionView {
    pub description: Option<Seq<char>>,
    pub documentation: Option<Seq<char>>,
    pub wants: Option<Seq<char>>,
    pub requires: Option<Seq<char>>,
    pub requisite: Option<Seq<char>>,
    pub binds_to: Option<Seq<char>>,
    pub part_of: Option<Seq<char>>,
    pub upholds: Option<Seq<char>>,
    pub conflicts: Option<Seq<char>>,
    pub before: Option<Seq<char>>,
    pub after: Option<Seq<char>>,
    pub on_failure: Option<Seq<char>>,
    pub on_success: Option<Seq<char>>,
    pub propagates_reload_to: Option<Seq<char>>,
    pub reload_propagated_from: Option<Seq<char>>,
    pub propagates_stop_to: Option<Seq<char>>,
    pub stop_propagated_from: Option<Seq<char>>,
    pub joins_namespace_of: Option<Seq<char>>,
    pub requires_mounts_for: Option<Seq<char>>,
    pub on_failure_job_mode: Option<Seq<char>>,
    pub ignore_on_isolate: Option<bool>,
    pub stop_when_unneeded: Option<bool>,
    pub refuse_manual_start: Option<bool>,
    pub refuse_manual_stop: Option<bool>,
    pub allow_isolate: Option<bool>,
    pub default_dependencies: Option<bool>,
    pub collect_mode: Option<Seq<char>>,
    pub failure_action: Option<Seq<char>>,
    pub success_action: Option<Seq<char>>,
}

impl View for UnitSection {
    type V = UnitSectionView;

    open spec fn view(&self) -> UnitSectionView {
        UnitSectionView {
            description: text_of(self.description),
            documentation: text_of(self.documentation),
            wants: text_of(self.wants),
            requires: text_of(self.requires),
            requisite: text_of(self.requisite),
            binds_to: text_of(self.binds_to),
            part_of: text_of(self.part_of),
            upholds: text_of(self.upholds),
            conflicts: text_of(self.conflicts),
            before: text_of(self.before),
            after: text_of(self.after),
            on_failure: text_of(self.on_failure),
            on_success: text_of(self.on_success),
            propagates_reload_to: text_of(self.propagates_reload_to),
            reload_propagated_from: text_of(self.reload_propagated_from),
            propagates_stop_to: text_of(self.propagates_stop_to),
            stop_propagated_from: text_of(self.stop_propagated_from),
            joins_namespace_of: text_of(self.joins_namespace_of),
            requires_mounts_for: text_of(self.requires_mounts_for),
            on_failure_job_mode: text_of(self.on_failure_job_mode),
            ignore_on_isolate: self.ignore_on_isolate,
            stop_when_unneeded: self.stop_when_unneeded,
            refuse_manual_start: self.refuse_manual_start,
            refuse_manual_stop: self.refuse_manual_stop,
            allow_isolate: self.allow_isolate,
            default_dependencies: self.default_dependencies,
            collect_mode: text_of(self.collect_mode),
            failure_action: text_of(self.failure_action),
            success_action: text_of(self.success_action),
        }
    }
}

/// Why a unit file could not be read.
#[derive(Clone, Copy, Debug, PartialEq, Eq, Structural)]
pub enum UnitError {
    /// The file has no `[Unit]` section.
    MissingUnitSection,
}

impl UnitError {
    /// The error in words.
    pub fn message(&self) -> (text: String)
        ensures
            text@ == "Missing 'Unit' section"@,
    {
        "Missing 'Unit' section".to_owned()
    }
}

/// The keys of a section, in order.
pub open spec fn value_keys(values: Seq<IniValueView>) -> Seq<Seq<char>> {
    Seq::new(values.len(), |i: int| values[i].key)
}

/// The names of the sections, in order.
pub open spec fn section_names(sections: Seq<IniSectionView>) -> Seq<Seq<char>> {
    Seq::new(sections.len(), |i: int| sections[i].name)
}

/// The value of the first `key` of a section; `None` if the section has no
/// such key or the key has no value.
pub open spec fn lookup(values: Seq<IniValueView>, key: Seq<char>) -> Option<Seq<char>> {
    let i = position(value_keys(values), key);
    if 0 <= i < values.len() {
        values[i].value
    } else {
        None
    }
}

/// A text that can be read as a flag: `true` or `false`, or no text at all.
pub open spec fn is_flag(text: Option<Seq<char>>) -> bool {
    text matches Some(t) ==> t == "true"@ || t == "false"@
}

/// The flag that a text stands for.
pub open spec fn flag_of(text: Option<Seq<char>>) -> Option<bool> {
    match text {
        Some(t) => Some(t == "true"@),
        None => None,
    }
}

/// The text that shows a flag.
pub open spec fn flag_text(flag: Option<bool>) -> Option<Seq<char>> {
    match flag {
        Some(true) => Some("true"@),
        Some(false) => Some("false"@),
        None => None,
    }
}

/// Every flag among the values can be read as one.
pub open spec fn flags_are_valid(values: Seq<IniValueView>) -> bool {
    &&& is_flag(lookup(values, "ignore_on_isolate"@))
    &&& is_flag(lookup(values, "stop_when_unneeded"@))
    &&& is_flag(lookup(values, "refuse_manual_start"@))
    &&& is_flag(lookup(values, "refuse_manual_stop"@))
    &&& is_flag(lookup(values, "allow_isolate"@))
    &&& is_flag(lookup(values, "default_dependencies"@))
}

/// The place of the first section named `unit`, or the number of sections if
/// there is none.
pub open spec fn unit_place(sections: Seq<IniSectionView>) -> int {
    position(section_names(sections), "unit"@)
}

/// The flags of the `[Unit]` section, if the file has one, can be read.
pub open spec fn unit_flags_are_valid(sections: Seq<IniSectionView>) -> bool {
    0 <= unit_place(sections) < sections.len() ==> flags_are_valid(
        sections[unit_place(sections)].values,
    )
}

/// The settings that the values of a `[Unit]` section give.
pub open spec fn unit_of(values: Seq<IniValueView>) -> UnitSectionView {
    UnitSectionView {
        description: lookup(values, "description"@),
        documentation: lookup(values, "documentation"@),
        wants: lookup(values, "wants"@),
        requires: lookup(values, "requires"@),
        requisite: lookup(values, "requisite"@),
        binds_to: lookup(values, "binds_to"@),
        part_of: lookup(values, "part_of"@),
        upholds: lookup(values, "upholds"@),
        conflicts: lookup(values, "conflicts"@),
        before: lookup(values, "before"@),
        after: lookup(values, "after"@),
        on_failure: lookup(values, "on_failure"@),
        on_success: lookup(values, "on_success"@),
        propagates_reload_to: lookup(values, "propagates_reload_to"@),
        reload_propagated_from: lookup(values, "reload_propagated_from"@),
        propagates_stop_to: lookup(values, "propagates_stop_to"@),
        stop_propagated_from: lookup(values, "stop_propagated_from"@),
        joins_namespace_of: lookup(values, "joins_namespace_of"@),
        requires_mounts_for: lookup(values, "requires_mounts_for"@),
        on_failure_job_mode: lookup(values, "on_failure_job_mode"@),
        ignore_on_isolate: flag_of(lookup(values, "ignore_on_isolate"@)),
        stop_when_unneeded: flag_of(lookup(values, "stop_when_unneeded"@)),
        refuse_manual_start: flag_of(lookup(values, "refuse_manual_start"@)),
        refuse_manual_stop: flag_of(lookup(values, "refuse_manual_stop"@)),
        allow_isolate: flag_of(lookup(values, "allow_isolate"@)),
        default_dependencies: flag_of(lookup(values, "default_dependencies"@)),
        collect_mode: lookup(values, "collect_mode"@),
        failure_action: lookup(values, "failure_action"@),
        success_action: lookup(values, "success_action"@),
    }
}

/// One line of the text of a section: the label, a colon, and the value or
/// `None`.
pub open spec fn text_line(label: Seq<char>, value: Option<Seq<char>>) -> Seq<char> {
    label + ": "@ + (match value {
        Some(v) => v,
        None => "None"@,
    }) + "\n"@
}

/// The text of a section: one line for each setting, in the order of the
/// manual.
pub open spec fn unit_text(unit: UnitSectionView) -> Seq<char> {
    text_line("Description"@, unit.description)
        + text_line("Documentation"@, unit.documentation)
        + text_line("Wants"@, unit.wants)
        + text_line("Requires"@, unit.requires)
        + text_line("Requisite"@, unit.requisite)
        + text_line("BindsTo"@, unit.binds_to)
        + text_line("PartOf"@, unit.part_of)
        + text_line("Upholds"@, unit.upholds)
        + text_line("Conflicts"@, unit.conflicts)
        + text_line("Before"@, unit.before)
        + text_line("After"@, unit.after)
        + text_line("OnFailure"@, unit.on_failure)
        + text_line("OnSuccess"@, unit.on_success)
        + text_line("PropagatesReloadTo"@, unit.propagates_reload_to)
        + text_line("ReloadPropagatedFrom"@, unit.reload_propagated_from)
        + text_line("PropagatesStopTo"@, unit.propagates_stop_to)
        + text_line("StopPropagatedFrom"@, unit.stop_propagated_from)
        + text_line("JoinsNamespaceOf"@, unit.joins_namespace_of)
        + text_line("RequiresMountsFor"@, unit.requires_mounts_for)
        + text_line("OnFailureJobMode"@, unit.on_failure_job_mode)
        + text_line("IgnoreOnIsolate"@, flag_text(unit.ignore_on_isolate))
        + text_line("StopWhenUnneeded"@, flag_text(unit.stop_when_unneeded))
        + text_line("RefuseManualStart"@, flag_text(unit.refuse_manual_start))
        + text_line("RefuseManualStop"@, flag_text(unit.refuse_manual_stop))
        + text_line("AllowIsolate"@, flag_text(unit.allow_isolate))
        + text_line("DefaultDependencies"@, flag_text(unit.default_dependencies))
        + text_line("CollectMode"@, unit.collect_mode)
        + text_line("FailureAction"@, unit.failure_action)
        + text_line("SuccessAction"@, unit.success_action)
}

impl Default for UnitSection {
    /// A section with no setting given.
    fn default() -> (unit: UnitSection)
        ensures
            unit@ == unit_of(Seq::empty()),
    {
        let unit = UnitSection {
            description: None,
            documentation: None,
            wants: None,
            requires: None,
            requisite: None,
            binds_to: None,
            part_of: None,
            upholds: None,
            conflicts: None,
            before: None,
            after: None,
            on_failure: None,
            on_success: None,
            propagates_reload_to: None,
            reload_propagated_from: None,
            propagates_stop_to: None,
            stop_propagated_from: None,
            joins_namespace_of: None,
            requires_mounts_for: None,
            on_failure_job_mode: None,
            ignore_on_isolate: None,
            stop_when_unneeded: None,
            refuse_manual_start: None,
            refuse_manual_stop: None,
            allow_isolate: None,
            default_dependencies: None,
            collect_mode: None,
            failure_action: None,
            success_action: None,
        };
        assert(value_keys(Seq::<IniValueView>::empty()) =~= Seq::<Seq<char>>::empty());
        unit
    }
}

impl UnitSection {
    /// The section as text, one line for each setting.
    pub fn to_text(&self) -> (text: String)
        ensures
            text@ == unit_text(self@),
    {
        let mut text = String::new();
        push_text_line(&mut text, "Description", &self.description);
        assert(text@ =~= text_line("Description"@, self@.description));
        push_text_line(&mut text, "Documentation", &self.documentation);
        push_text_line(&mut text, "Wants", &self.wants);
        push_text_line(&mut text, "Requires", &self.requires);
        push_text_line(&mut text, "Requisite", &self.requisite);
        push_text_line(&mut text, "BindsTo", &self.binds_to);
        push_text_line(&mut text, "PartOf", &self.part_of);
        push_text_line(&mut text, "Upholds", &self.upholds);
        push_text_line(&mut text, "Conflicts", &self.conflicts);
        push_text_line(&mut text, "Before", &self.before);
        push_text_line(&mut text, "After", &self.after);
        push_text_line(&mut text, "OnFailure", &self.on_failure);
        push_text_line(&mut text, "OnSuccess", &self.on_success);
        push_text_line(&mut text, "PropagatesReloadTo", &self.propagates_reload_to);
        push_text_line(&mut text, "ReloadPropagatedFrom", &self.reload_propagated_from);
        push_text_line(&mut text, "PropagatesStopTo", &self.propagates_stop_to);
        push_text_line(&mut text, "StopPropagatedFrom", &self.stop_propagated_from);
        push_text_line(&mut text, "JoinsNamespaceOf", &self.joins_namespace_of);
        push_text_line(&mut text, "RequiresMountsFor", &self.requires_mounts_for);
        push_text_line(&mut text, "OnFailureJobMode", &self.on_failure_job_mode);
        push_flag_line(&mut text, "IgnoreOnIsolate", self.ignore_on_isolate);
        push_flag_line(&mut text, "StopWhenUnneeded", self.stop_when_unneeded);
        push_flag_line(&mut text, "RefuseManualStart", self.refuse_manual_start);
        push_flag_line(&mut text, "RefuseManualStop", self.refuse_manual_stop);
        push_flag_line(&mut text, "AllowIsolate", self.allow_isolate);
        push_flag_line(&mut text, "DefaultDependencies", self.default_dependencies);
        push_text_line(&mut text, "CollectMode", &self.collect_mode);
        push_text_line(&mut text, "FailureAction", &self.failure_action);
        push_text_line(&mut text, "SuccessAction", &self.success_action);
        text
    }
}

/// Appends the line of one text setting.
fn push_text_line(out: &mut String, label: &str, value: &Option<String>)
    ensures
        final(out)@ == old(out)@ + text_line(label@, text_of(*value)),
{
    out.append(label);
    out.append(": ");
    match value {
        Some(v) => {
            out.append(v.as_str());
        },
        None => {
            out.append("None");
        },
    }
    out.append("\n");
    assert(out@ =~= old(out)@ + text_line(label@, text_of(*value)));
}

/// Appends the line of one flag.
fn push_flag_line(out: &mut String, label: &str, value: Option<bool>)
    ensures
        final(out)@ == old(out)@ + text_line(label@, flag_text(value)),
{
    out.append(label);
    out.append(": ");
    match value {
        Some(true) => {
            out.append("true");
        },
        Some(false) => {
            out.append("false");
        },
        None => {
            out.append("None");
        },
    }
    out.append("\n");
    assert(out@ =~= old(out)@ + text_line(label@, flag_text(value)));
}

/// The value of the first `key` among `values`.
pub fn lookup_text(values: &Vec<IniValue>, key: &str) -> (found: Option<String>)
    ensures
        text_of(found) == lookup(value_views(values@), key@),
{
    let wanted: String = key.to_owned();
    let n: usize = values.len();
    let mut i: usize = 0;
    while i < n && values[i].key != wanted
        invariant
            i <= n,
            n == values@.len(),
            wanted@ == key@,
            forall|j: int| 0 <= j < i ==> values@[j].key@ != key@,
        decreases n - i,
    {
        i = i + 1;
    }
    proof {
        let all = value_keys(value_views(values@));
        assert forall|j: int| 0 <= j < i implies all[j] != key@ by {}
        lemma_position(all, key@, i as int);
    }
    if i < n {
        match &values[i].value {
            Some(v) => Some(v.clone()),
            None => None,
        }
    } else {
        None
    }
}

/// The flag under the first `key` among `values`.
pub fn lookup_flag(values: &Vec<IniValue>, key: &str) -> (found: Option<bool>)
    requires
        is_flag(lookup(value_views(values@), key@)),
    ensures
        found == flag_of(lookup(value_views(values@), key@)),
{
    match lookup_text(values, key) {
        Some(text) => Some(text == "true".to_owned()),
        None => None,
    }
}

/// Whether the text under the first `key` among `values` can be read as a
/// flag.
fn flag_is_valid(values: &Vec<IniValue>, key: &str) -> (valid: bool)
    ensures
        valid == is_flag(lookup(value_views(values@), key@)),
{
    match lookup_text(values, key) {
        Some(text) => text == "true".to_owned() || text == "false".to_owned(),
        None => true,
    }
}

/// The place of the first section named `unit`.
fn find_unit(conf: &Vec<IniSection>) -> (at: usize)
    ensures
        at <= conf@.len(),
        at == unit_place(section_views(conf@)),
{
    let wanted: String = "unit".to_owned();
    let n: usize = conf.len();
    let mut i: usize = 0;
    while i < n && conf[i].name != wanted
        invariant
            i <= n,
            n == conf@.len(),
            wanted@ == "unit"@,
            forall|j: int| 0 <= j < i ==> conf@[j].name@ != "unit"@,
        decreases n - i,
    {
        i = i + 1;
    }
    proof {
        let all = section_names(section_views(conf@));
        assert forall|j: int| 0 <= j < i implies all[j] != "unit"@ by {}
        lemma_position(all, "unit"@, i as int);
    }
    i
}

/// Whether the flags of the `[Unit]` section, if the file has one, can be
/// read: `parse_unit_section` asks for this.
pub fn has_valid_flags(conf: &Vec<IniSection>) -> (valid: bool)
    ensures
        valid == unit_flags_are_valid(section_views(conf@)),
{
    let at: usize = find_unit(conf);
    if at < conf.len() {
        let values = &conf[at].values;
        flag_is_valid(values, "ignore_on_isolate")
            && flag_is_valid(values, "stop_when_unneeded")
            && flag_is_valid(values, "refuse_manual_start")
            && flag_is_valid(values, "refuse_manual_stop")
            && flag_is_valid(values, "allow_isolate")
            && flag_is_valid(values, "default_dependencies")
    } else {
        true
    }
}

/// Picks the settings of the `[Unit]` section out of a parsed file. A file
/// without such a section is an error. A flag must read `true` or `false`.
pub fn parse_unit_section(conf: &Vec<IniSection>) -> (result: Result<UnitSection, UnitError>)
    requires
        unit_flags_are_valid(section_views(conf@)),
    ensures
        result is Ok <==> 0 <= unit_place(section_views(conf@)) < conf@.len(),
        result matches Ok(unit) ==> unit@ == unit_of(
            section_views(conf@)[unit_place(section_views(conf@))].values,
        ),
        result matches Err(error) ==> error == UnitError::MissingUnitSection,
{
    let at: usize = find_unit(conf);
    if at >= conf.len() {
        return Err(UnitError::MissingUnitSection);
    }
    let values = &conf[at].values;
    let unit = UnitSection {
        description: lookup_text(values, "description"),
        documentation: lookup_text(values, "documentation"),
        wants: lookup_text(values, "wants"),
        requires: lookup_text(values, "requires"),
        requisite: lookup_text(values, "requisite"),
        binds_to: lookup_text(values, "binds_to"),
        part_of: lookup_text(values, "part_of"),
        upholds: lookup_text(values, "upholds"),
        conflicts: lookup_text(values, "conflicts"),
        before: lookup_text(values, "before"),
        after: lookup_text(values, "after"),
        on_failure: lookup_text(values, "on_failure"),
        on_success: lookup_text(values, "on_success"),
        propagates_reload_to: lookup_text(values, "propagates_reload_to"),
        reload_propagated_from: lookup_text(values, "reload_propagated_from"),
        propagates_stop_to: lookup_text(values, "propagates_stop_to"),
        stop_propagated_from: lookup_text(values, "stop_propagated_from"),
        joins_namespace_of: lookup_text(values, "joins_namespace_of"),
        requires_mounts_for: lookup_text(values, "requires_mounts_for"),
        on_failure_job_mode: lookup_text(values, "on_failure_job_mode"),
        ignore_on_isolate: lookup_flag(values, "ignore_on_isolate"),
        stop_when_unneeded: lookup_flag(values, "stop_when_unneeded"),
        refuse_manual_start: lookup_flag(values, "refuse_manual_start"),
        refuse_manual_stop: lookup_flag(values, "refuse_manual_stop"),
        allow_isolate: lookup_flag(values, "allow_isolate"),
        default_dependencies: lookup_flag(values, "default_dependencies"),
        collect_mode: lookup_text(values, "collect_mode"),
        failure_action: lookup_text(values, "failure_action"),
        success_action: lookup_text(values, "success_action"),
    };
    Ok(unit)
}

} // verus!
