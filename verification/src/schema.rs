//! The schema registry: strict validation of command and event payloads.
//!
//! Each `(type, schema_version)` pair names a fixed set of field rules.
//! A payload conforms when it is an object, every required field occurs
//! exactly once with the demanded type, every optional field occurs at
//! most once, and no field outside the rule set occurs at all.

use vstd::prelude::*;

verus! {

use crate::json::{
    count_key, jview_fields, lemma_count_key_nonneg, lemma_jview_fields, lemma_lookup_count,
    obj_lookup, Json, JsonV,
};
use crate::text::str_eq;

/// What a field rule demands of a field.
#[derive(Debug, Clone, Copy, PartialEq, Eq, Structural)]
pub enum FieldKind {
    /// Must occur, and must be a string.
    ReqStr,
    /// May occur at most once; a string where it does.
    OptStr,
    /// May occur at most once; any value where it does.
    OptAny,
    /// Must occur, and must be an integer.
    ReqInt,
    /// May occur at most once; an integer where it does.
    OptInt,
    /// Must occur; any value.
    ReqAny,
    /// May occur at most once; a string or `null` where it does.
    OptStrOrNull,
}

/// One field of a schema.
#[derive(Debug, Clone)]
pub struct FieldRule {
    pub name: String,
    pub kind: FieldKind,
}

/// The model of a field rule.
#[verifier::ext_equal]
pub struct FieldRuleV {
    pub name: Seq<char>,
    pub kind: FieldKind,
}

impl View for FieldRule {
    type V = FieldRuleV;

    open spec fn view(&self) -> FieldRuleV {
        FieldRuleV { name: self.name@, kind: self.kind }
    }
}

impl DeepView for FieldRule {
    type V = FieldRuleV;

    open spec fn deep_view(&self) -> FieldRuleV {
        self@
    }
}

/// Whether the fields of an object satisfy one rule.
pub open spec fn rule_ok(fields: Seq<(Seq<char>, JsonV)>, rule: FieldRuleV) -> bool {
    match rule.kind {
        FieldKind::ReqStr => count_key(fields, rule.name) == 1 && (obj_lookup(
            fields,
            rule.name,
        ) matches Some(v) && v is Str),
        FieldKind::OptStr => count_key(fields, rule.name) <= 1 && (obj_lookup(
            fields,
            rule.name,
        ) matches Some(v) ==> v is Str),
        FieldKind::OptAny => count_key(fields, rule.name) <= 1,
        FieldKind::ReqInt => count_key(fields, rule.name) == 1 && (obj_lookup(
            fields,
            rule.name,
        ) matches Some(v) && v is Int),
        FieldKind::OptInt => count_key(fields, rule.name) <= 1 && (obj_lookup(
            fields,
            rule.name,
        ) matches Some(v) ==> v is Int),
        FieldKind::ReqAny => count_key(fields, rule.name) == 1,
        FieldKind::OptStrOrNull => count_key(fields, rule.name) <= 1 && (obj_lookup(
            fields,
            rule.name,
        ) matches Some(v) ==> (v is Str || v is Null)),
    }
}

/// Whether some rule names this key.
pub open spec fn key_allowed(rules: Seq<FieldRuleV>, key: Seq<char>) -> bool {
    exists|i: int| 0 <= i < rules.len() && rules[i].name == key
}

/// Whether a payload conforms to a rule set: an object whose fields
/// satisfy every rule and carry no key outside the rule set.
pub open spec fn conforms(p: JsonV, rules: Seq<FieldRuleV>) -> bool {
    &&& p is Obj
    &&& forall|i: int| 0 <= i < rules.len() ==> rule_ok(p.obj_fields(), #[trigger] rules[i])
    &&& forall|j: int|
        0 <= j < p.obj_fields().len() ==> key_allowed(rules, (#[trigger] p.obj_fields()[j]).0)
}

/// A payload holding a field no rule names does not conform.
pub proof fn lemma_unknown_field_rejected(p: JsonV, rules: Seq<FieldRuleV>, j: int)
    requires
        p is Obj,
        0 <= j < p.obj_fields().len(),
        forall|i: int| 0 <= i < rules.len() ==> (#[trigger] rules[i]).name != p.obj_fields()[j].0,
    ensures
        !conforms(p, rules),
{
    assert(!key_allowed(rules, p.obj_fields()[j].0));
}

/// Counts the occurrences of `key` among an object's fields.
fn count_field(fields: &Vec<(String, Json)>, key: &str) -> (c: usize)
    ensures
        c == count_key(jview_fields(fields@), key@),
{
    broadcast use lemma_jview_fields, lemma_count_key_nonneg;

    let ghost vf = jview_fields(fields@);
    let mut acc: usize = 0;
    let mut i: usize = 0;
    proof {
        assert(vf.skip(0) =~= vf);
    }
    while i < fields.len()
        invariant
            i <= fields@.len(),
            acc <= i,
            vf == jview_fields(fields@),
            count_key(vf, key@) == acc + count_key(vf.skip(i as int), key@),
        decreases fields@.len() - i,
    {
        broadcast use lemma_jview_fields, lemma_count_key_nonneg;

        proof {
            assert(vf.skip(i as int)[0] == vf[i as int]);
            assert(vf.skip(i as int).drop_first() =~= vf.skip(i + 1));
        }
        if str_eq(fields[i].0.as_str(), key) {
            acc += 1;
        }
        i += 1;
    }
    proof {
        assert(vf.skip(i as int).len() == 0);
    }
    acc
}

/// Checks one payload against one rule set.
pub fn payload_conforms(payload: &Json, rules: &Vec<FieldRule>) -> (r: bool)
    ensures
        r == conforms(payload@, rules.deep_view()),
{
    broadcast use lemma_jview_fields, lemma_lookup_count, lemma_count_key_nonneg;

    let fields = match payload {
        Json::Obj(f) => f,
        _ => {
            return false;
        },
    };
    let ghost vf = payload@.obj_fields();
    let ghost rv = rules.deep_view();
    proof {
        assert(vf == jview_fields(fields@));
        assert(vf.len() == fields@.len());
    }
    let mut i: usize = 0;
    while i < rules.len()
        invariant
            i <= rules@.len(),
            payload matches Json::Obj(f) && f@ == fields@,
            vf == payload@.obj_fields(),
            vf == jview_fields(fields@),
            rv == rules.deep_view(),
            rv.len() == rules@.len(),
            forall|k: int| 0 <= k < i ==> rule_ok(vf, #[trigger] rv[k]),
        decreases rules@.len() - i,
    {
        broadcast use lemma_lookup_count, lemma_count_key_nonneg;

        let rule = &rules[i];
        proof {
            assert(rv[i as int] == rules@[i as int]@);
        }
        let c = count_field(fields, rule.name.as_str());
        match rule.kind {
            FieldKind::ReqStr => {
                if c != 1 {
                    proof {
                        assert(!rule_ok(vf, rv[i as int]));
                    }
                    return false;
                }
                match payload.get(rule.name.as_str()) {
                    Some(v) => {
                        if v.as_str().is_none() {
                            proof {
                                assert(!rule_ok(vf, rv[i as int]));
                            }
                            return false;
                        }
                    },
                    None => {
                        proof {
                            assert(false);
                        }
                        return false;
                    },
                }
            },
            FieldKind::OptStr => {
                if c > 1 {
                    proof {
                        assert(!rule_ok(vf, rv[i as int]));
                    }
                    return false;
                }
                if let Some(v) = payload.get(rule.name.as_str()) {
                    if v.as_str().is_none() {
                        proof {
                            assert(!rule_ok(vf, rv[i as int]));
                        }
                        return false;
                    }
                }
            },
            FieldKind::OptAny => {
                if c > 1 {
                    proof {
                        assert(!rule_ok(vf, rv[i as int]));
                    }
                    return false;
                }
            },
            FieldKind::ReqInt => {
                if c != 1 {
                    proof {
                        assert(!rule_ok(vf, rv[i as int]));
                    }
                    return false;
                }
                match payload.get(rule.name.as_str()) {
                    Some(v) => {
                        if v.as_int().is_none() {
                            proof {
                                assert(!rule_ok(vf, rv[i as int]));
                            }
                            return false;
                        }
                    },
                    None => {
                        proof {
                            assert(false);
                        }
                        return false;
                    },
                }
            },
            FieldKind::OptInt => {
                if c > 1 {
                    proof {
                        assert(!rule_ok(vf, rv[i as int]));
                    }
                    return false;
                }
                if let Some(v) = payload.get(rule.name.as_str()) {
                    if v.as_int().is_none() {
                        proof {
                            assert(!rule_ok(vf, rv[i as int]));
                        }
                        return false;
                    }
                }
            },
            FieldKind::ReqAny => {
                if c != 1 {
                    proof {
                        assert(!rule_ok(vf, rv[i as int]));
                    }
                    return false;
                }
            },
            FieldKind::OptStrOrNull => {
                if c > 1 {
                    proof {
                        assert(!rule_ok(vf, rv[i as int]));
                    }
                    return false;
                }
                if let Some(v) = payload.get(rule.name.as_str()) {
                    if v.as_str().is_none() && !v.is_null() {
                        proof {
                            assert(!rule_ok(vf, rv[i as int]));
                        }
                        return false;
                    }
                }
            },
        }
        proof {
            assert(rule_ok(vf, rv[i as int]));
        }
        i += 1;
    }
    let mut j: usize = 0;
    while j < fields.len()
        invariant
            j <= fields@.len(),
            payload matches Json::Obj(f) && f@ == fields@,
            vf == payload@.obj_fields(),
            vf == jview_fields(fields@),
            vf.len() == fields@.len(),
            rv == rules.deep_view(),
            rv.len() == rules@.len(),
            forall|k: int| 0 <= k < rv.len() ==> rule_ok(vf, #[trigger] rv[k]),
            forall|k: int| 0 <= k < j ==> key_allowed(rv, (#[trigger] vf[k]).0),
        decreases fields@.len() - j,
    {
        broadcast use lemma_jview_fields;

        let mut found = false;
        let mut k: usize = 0;
        while k < rules.len()
            invariant
                k <= rules@.len(),
                j < fields@.len(),
                payload matches Json::Obj(f) && f@ == fields@,
                vf == jview_fields(fields@),
                vf.len() == fields@.len(),
                rv == rules.deep_view(),
                rv.len() == rules@.len(),
                !found ==> forall|m: int| 0 <= m < k ==> (#[trigger] rv[m]).name != vf[j as int].0,
                found ==> key_allowed(rv, vf[j as int].0),
            decreases rules@.len() - k,
        {
            broadcast use lemma_jview_fields;

            if str_eq(rules[k].name.as_str(), fields[j].0.as_str()) {
                proof {
                    assert(rv[k as int] == rules@[k as int]@);
                    assert(vf[j as int] == (fields@[j as int].0@, crate::json::jview(
                        fields@[j as int].1,
                    )));
                    assert(rv[k as int].name == vf[j as int].0);
                }
                found = true;
            } else {
                proof {
                    assert(rv[k as int] == rules@[k as int]@);
                    assert(vf[j as int] == (fields@[j as int].0@, crate::json::jview(
                        fields@[j as int].1,
                    )));
                }
            }
            k += 1;
        }
        if !found {
            proof {
                assert(!key_allowed(rv, vf[j as int].0));
            }
            return false;
        }
        j += 1;
    }
    true
}

/// The rules of the `workspace.create` command payload.
pub open spec fn workspace_create_rules() -> Seq<FieldRuleV> {
    seq![
        FieldRuleV { name: "name"@, kind: FieldKind::ReqStr },
        FieldRuleV { name: "path"@, kind: FieldKind::OptStr },
    ]
}

/// The rules of the `project.create` command payload.
pub open spec fn project_create_rules() -> Seq<FieldRuleV> {
    seq![
        FieldRuleV { name: "workspace_id"@, kind: FieldKind::ReqStr },
        FieldRuleV { name: "name"@, kind: FieldKind::ReqStr },
    ]
}

/// The rules of the `workspace.created` event payload.
pub open spec fn workspace_created_rules() -> Seq<FieldRuleV> {
    seq![
        FieldRuleV { name: "name"@, kind: FieldKind::ReqStr },
        FieldRuleV { name: "root_path"@, kind: FieldKind::ReqStr },
    ]
}

/// The rules of the `project.created` event payload.
pub open spec fn project_created_rules() -> Seq<FieldRuleV> {
    seq![
        FieldRuleV { name: "workspace_id"@, kind: FieldKind::ReqStr },
        FieldRuleV { name: "name"@, kind: FieldKind::ReqStr },
    ]
}

/// The rules of the `command.rejected` event payload.
pub open spec fn command_rejected_rules() -> Seq<FieldRuleV> {
    seq![
        FieldRuleV { name: "command_type"@, kind: FieldKind::ReqStr },
        FieldRuleV { name: "code"@, kind: FieldKind::ReqStr },
        FieldRuleV { name: "message"@, kind: FieldKind::ReqStr },
        FieldRuleV { name: "details"@, kind: FieldKind::OptAny },
    ]
}

/// The registry's command side: which rules govern a command payload.
pub open spec fn command_schema_rules(t: Seq<char>, v: int) -> Option<Seq<FieldRuleV>> {
    if t == "workspace.create"@ && v == 1 {
        Some(workspace_create_rules())
    } else if t == "project.create"@ && v == 1 {
        Some(project_create_rules())
    } else {
        None
    }
}

/// The registry's event side: which rules govern an event payload.
pub open spec fn event_schema_rules(t: Seq<char>, v: int) -> Option<Seq<FieldRuleV>> {
    if t == "workspace.created"@ && v == 1 {
        Some(workspace_created_rules())
    } else if t == "project.created"@ && v == 1 {
        Some(project_created_rules())
    } else if t == "command.rejected"@ && v == 1 {
        Some(command_rejected_rules())
    } else {
        None
    }
}

/// One registry entry: a type, a version, and the payload rules.
#[derive(Debug, Clone)]
pub struct SchemaEntry {
    pub schema_type: String,
    pub schema_version: i32,
    pub rules: Vec<FieldRule>,
}

/// The model of a registry entry.
#[verifier::ext_equal]
pub struct SchemaEntryV {
    pub schema_type: Seq<char>,
    pub schema_version: int,
    pub rules: Seq<FieldRuleV>,
}

impl View for SchemaEntry {
    type V = SchemaEntryV;

    open spec fn view(&self) -> SchemaEntryV {
        SchemaEntryV {
            schema_type: self.schema_type@,
            schema_version: self.schema_version as int,
            rules: self.rules.deep_view(),
        }
    }
}

impl DeepView for SchemaEntry {
    type V = SchemaEntryV;

    open spec fn deep_view(&self) -> SchemaEntryV {
        self@
    }
}

/// The rules of the first entry matching `(t, v)`.
pub open spec fn lookup_entry(entries: Seq<SchemaEntryV>, t: Seq<char>, v: int) -> Option<
    Seq<FieldRuleV>,
>
    decreases entries.len(),
{
    if entries.len() == 0 {
        None
    } else if entries[0].schema_type == t && entries[0].schema_version == v {
        Some(entries[0].rules)
    } else {
        lookup_entry(entries.drop_first(), t, v)
    }
}

/// The command entries the registry is loaded with.
pub open spec fn command_entries() -> Seq<SchemaEntryV> {
    seq![
        SchemaEntryV {
            schema_type: "workspace.create"@,
            schema_version: 1,
            rules: workspace_create_rules(),
        },
        SchemaEntryV {
            schema_type: "project.create"@,
            schema_version: 1,
            rules: project_create_rules(),
        },
    ]
}

/// The event entries the registry is loaded with.
pub open spec fn event_entries() -> Seq<SchemaEntryV> {
    seq![
        SchemaEntryV {
            schema_type: "workspace.created"@,
            schema_version: 1,
            rules: workspace_created_rules(),
        },
        SchemaEntryV {
            schema_type: "project.created"@,
            schema_version: 1,
            rules: project_created_rules(),
        },
        SchemaEntryV {
            schema_type: "command.rejected"@,
            schema_version: 1,
            rules: command_rejected_rules(),
        },
    ]
}

/// Looking a pair up among the loaded command entries answers as the
/// registry's command side does.
proof fn lemma_command_lookup(t: Seq<char>, v: int)
    ensures
        lookup_entry(command_entries(), t, v) == command_schema_rules(t, v),
{
    reveal_with_fuel(lookup_entry, 4);
    let e = command_entries();
    assert(e.drop_first() =~= seq![
        SchemaEntryV {
            schema_type: "project.create"@,
            schema_version: 1,
            rules: project_create_rules(),
        },
    ]);
    assert(e.drop_first().drop_first() =~= Seq::<SchemaEntryV>::empty());
}

/// Looking a pair up among the loaded event entries answers as the
/// registry's event side does.
proof fn lemma_event_lookup(t: Seq<char>, v: int)
    ensures
        lookup_entry(event_entries(), t, v) == event_schema_rules(t, v),
{
    reveal_with_fuel(lookup_entry, 5);
    let e = event_entries();
    assert(e.drop_first() =~= seq![
        SchemaEntryV {
            schema_type: "project.created"@,
            schema_version: 1,
            rules: project_created_rules(),
        },
        SchemaEntryV {
            schema_type: "command.rejected"@,
            schema_version: 1,
            rules: command_rejected_rules(),
        },
    ]);
    assert(e.drop_first().drop_first() =~= seq![
        SchemaEntryV {
            schema_type: "command.rejected"@,
            schema_version: 1,
            rules: command_rejected_rules(),
        },
    ]);
    assert(e.drop_first().drop_first().drop_first() =~= Seq::<SchemaEntryV>::empty());
}

/// A failed validation, with a human-readable message.
#[derive(Debug)]
pub struct SchemaError {
    pub message: String,
}

/// One field rule, built from its parts.
fn rule(name: &str, kind: FieldKind) -> (r: FieldRule)
    ensures
        r@ == (FieldRuleV { name: name@, kind }),
{
    FieldRule { name: name.to_owned(), kind }
}

/// One registry entry, built from its parts.
fn entry(schema_type: &str, schema_version: i32, rules: Vec<FieldRule>) -> (r: SchemaEntry)
    ensures
        r@ == (SchemaEntryV {
            schema_type: schema_type@,
            schema_version: schema_version as int,
            rules: rules.deep_view(),
        }),
{
    SchemaEntry { schema_type: schema_type.to_owned(), schema_version, rules }
}

/// The decimal rendering of an integer, for messages.
fn dec_i32(v: i32) -> String {
    let mut n: u64 = if v < 0 {
        (-(v as i64)) as u64
    } else {
        v as u64
    };
    let mut digits: Vec<u64> = Vec::new();
    if n == 0 {
        digits.push(0);
    }
    while n > 0
        decreases n,
    {
        digits.push(n % 10);
        proof {
            assert(n / 10 < n) by (nonlinear_arith)
                requires
                    n >= 1,
            ;
        }
        n = n / 10;
    }
    let mut s = if v < 0 {
        String::from_str("-")
    } else {
        String::new()
    };
    let mut i = digits.len();
    while i > 0
        invariant
            i <= digits@.len(),
        decreases i,
    {
        i -= 1;
        let d = digits[i];
        let ds: &str = if d == 0 {
            "0"
        } else if d == 1 {
            "1"
        } else if d == 2 {
            "2"
        } else if d == 3 {
            "3"
        } else if d == 4 {
            "4"
        } else if d == 5 {
            "5"
        } else if d == 6 {
            "6"
        } else if d == 7 {
            "7"
        } else if d == 8 {
            "8"
        } else {
            "9"
        };
        s.append(ds);
    }
    s
}

/// A "schema not found" message naming the side, the type and the version.
fn not_found_message(side: &str, schema_type: &str, schema_version: i32) -> String {
    let mut s = String::from_str("schema not found for ");
    s.append(side);
    s.append(" ");
    s.append(schema_type);
    s.append(" v");
    let v = dec_i32(schema_version);
    s.append(v.as_str());
    s
}

/// A violation message naming the type and the version.
fn violation_message(schema_type: &str, schema_version: i32) -> String {
    let mut s = String::from_str("payload does not conform to schema for ");
    s.append(schema_type);
    s.append(" v");
    let v = dec_i32(schema_version);
    s.append(v.as_str());
    s
}

/// The first entry matching `(t, v)`, if any.
fn find_rules<'a>(entries: &'a Vec<SchemaEntry>, t: &str, v: i32) -> (r: Option<&'a Vec<FieldRule>>)
    ensures
        match r {
            Some(rules) => lookup_entry(entries.deep_view(), t@, v as int) == Some(
                rules.deep_view(),
            ),
            None => lookup_entry(entries.deep_view(), t@, v as int) is None,
        },
{
    let ghost ev = entries.deep_view();
    let mut i: usize = 0;
    proof {
        assert(ev.skip(0) =~= ev);
    }
    while i < entries.len()
        invariant
            i <= entries@.len(),
            ev == entries.deep_view(),
            ev.len() == entries@.len(),
            lookup_entry(ev, t@, v as int) == lookup_entry(ev.skip(i as int), t@, v as int),
        decreases entries@.len() - i,
    {
        proof {
            assert(ev.skip(i as int)[0] == ev[i as int]);
            assert(ev.skip(i as int).drop_first() =~= ev.skip(i + 1));
            assert(ev[i as int] == entries@[i as int]@);
        }
        let e = &entries[i];
        if str_eq(e.schema_type.as_str(), t) && e.schema_version == v {
            return Some(&e.rules);
        }
        i += 1;
    }
    proof {
        assert(ev.skip(i as int).len() == 0);
    }
    None
}

/// The versioned schema registry, loaded once at startup.
#[derive(Debug)]
pub struct SchemaRegistry {
    command_schemas: Vec<SchemaEntry>,
    event_schemas: Vec<SchemaEntry>,
}

impl SchemaRegistry {
    /// The registry holds exactly the loaded entries.
    pub closed spec fn wf(self) -> bool {
        self.command_schemas.deep_view() == command_entries() && self.event_schemas.deep_view()
            == event_entries()
    }

    /// Loads the registry.
    pub fn new() -> (r: Result<SchemaRegistry, SchemaError>)
        ensures
            r matches Ok(reg) && reg.wf(),
    {
        let mut ws_create: Vec<FieldRule> = Vec::new();
        ws_create.push(rule("name", FieldKind::ReqStr));
        ws_create.push(rule("path", FieldKind::OptStr));
        proof {
            assert(ws_create.deep_view() =~= workspace_create_rules());
        }
        let mut pr_create: Vec<FieldRule> = Vec::new();
        pr_create.push(rule("workspace_id", FieldKind::ReqStr));
        pr_create.push(rule("name", FieldKind::ReqStr));
        proof {
            assert(pr_create.deep_view() =~= project_create_rules());
        }
        let mut ws_created: Vec<FieldRule> = Vec::new();
        ws_created.push(rule("name", FieldKind::ReqStr));
        ws_created.push(rule("root_path", FieldKind::ReqStr));
        proof {
            assert(ws_created.deep_view() =~= workspace_created_rules());
        }
        let mut pr_created: Vec<FieldRule> = Vec::new();
        pr_created.push(rule("workspace_id", FieldKind::ReqStr));
        pr_created.push(rule("name", FieldKind::ReqStr));
        proof {
            assert(pr_created.deep_view() =~= project_created_rules());
        }
        let mut cmd_rejected: Vec<FieldRule> = Vec::new();
        cmd_rejected.push(rule("command_type", FieldKind::ReqStr));
        cmd_rejected.push(rule("code", FieldKind::ReqStr));
        cmd_rejected.push(rule("message", FieldKind::ReqStr));
        cmd_rejected.push(rule("details", FieldKind::OptAny));
        proof {
            assert(cmd_rejected.deep_view() =~= command_rejected_rules());
        }
        let mut command_schemas: Vec<SchemaEntry> = Vec::new();
        command_schemas.push(entry("workspace.create", 1, ws_create));
        command_schemas.push(entry("project.create", 1, pr_create));
        proof {
            assert(command_schemas.deep_view() =~= command_entries());
        }
        let mut event_schemas: Vec<SchemaEntry> = Vec::new();
        event_schemas.push(entry("workspace.created", 1, ws_created));
        event_schemas.push(entry("project.created", 1, pr_created));
        event_schemas.push(entry("command.rejected", 1, cmd_rejected));
        proof {
            assert(event_schemas.deep_view() =~= event_entries());
        }
        Ok(SchemaRegistry { command_schemas, event_schemas })
    }

    /// Validates a command payload against its `(type, version)` schema.
    /// Succeeds exactly when the schema exists and the payload conforms.
    pub fn validate_command_payload(
        &self,
        command_type: &str,
        schema_version: i32,
        payload: &Json,
    ) -> (r: Result<(), SchemaError>)
        requires
            self.wf(),
        ensures
            match command_schema_rules(command_type@, schema_version as int) {
                Some(rules) => r is Ok <==> conforms(payload@, rules),
                None => r is Err,
            },
    {
        proof {
            lemma_command_lookup(command_type@, schema_version as int);
        }
        match find_rules(&self.command_schemas, command_type, schema_version) {
            Some(rules) => {
                if payload_conforms(payload, rules) {
                    Ok(())
                } else {
                    Err(SchemaError { message: violation_message(command_type, schema_version) })
                }
            },
            None => Err(
                SchemaError { message: not_found_message("command", command_type, schema_version) },
            ),
        }
    }

    /// Validates an event payload against its `(type, version)` schema.
    /// Succeeds exactly when the schema exists and the payload conforms.
    pub fn validate_event_payload(
        &self,
        event_type: &str,
        schema_version: i32,
        payload: &Json,
    ) -> (r: Result<(), SchemaError>)
        requires
            self.wf(),
        ensures
            match event_schema_rules(event_type@, schema_version as int) {
                Some(rules) => r is Ok <==> conforms(payload@, rules),
                None => r is Err,
            },
    {
        proof {
            lemma_event_lookup(event_type@, schema_version as int);
        }
        match find_rules(&self.event_schemas, event_type, schema_version) {
            Some(rules) => {
                if payload_conforms(payload, rules) {
                    Ok(())
                } else {
                    Err(SchemaError { message: violation_message(event_type, schema_version) })
                }
            },
            None => Err(
                SchemaError { message: not_found_message("event", event_type, schema_version) },
            ),
        }
    }
}

} // verus!
