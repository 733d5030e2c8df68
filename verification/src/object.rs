//! Runtime values and environments.
//!
//! An `Object` is the evaluator's value type.  A `Function` object carries
//! the handle of the environment it captured.  Environments live in an arena
//! (`Enviornment`): a vector of records, each holding its bindings and an
//! optional handle to the enclosing record.  Sharing a record between
//! closures is then just sharing its handle, and a record made by one call
//! outlives the call itself, which is what makes closures work.

use vstd::prelude::*;
use vstd::string::StringExecFns;

use crate::ast::FunctionLiteral;
use crate::ast::StmtV;
use crate::ast::clone_func_literal;
use crate::ast::idents_eq;
use crate::ast::stmts_eq;
use crate::ast::idents_view;
use crate::ast::stmts_view;

verus! {

/// The display name of a runtime value's type.
pub type ObjectType = String;

/// A runtime value.
#[derive(Debug)]
pub enum Object {
    Integer(i32),
    Boolean(bool),
    Null,
    ReturnValue(Box<Object>),
    Error(String),
    Function(FunctionLiteral, usize),
}

/// Mathematical image of a runtime value.  A function value is its parameter
/// names, the image of its body, and the handle of its captured environment.
pub enum ObjV {
    Int(i32),
    Bool(bool),
    Null,
    Ret(Box<ObjV>),
    Error(Seq<char>),
    Func { params: Seq<Seq<char>>, body: Seq<StmtV>, env: int },
}

/// The image of a runtime value.
pub open spec fn obj_view(o: Object) -> ObjV
    decreases o,
{
    match o {
        Object::Integer(i) => ObjV::Int(i),
        Object::Boolean(b) => ObjV::Bool(b),
        Object::Null => ObjV::Null,
        Object::ReturnValue(inner) => ObjV::Ret(Box::new(obj_view(*inner))),
        Object::Error(m) => ObjV::Error(m@),
        Object::Function(f, h) => ObjV::Func {
            params: idents_view(f.params@),
            body: stmts_view(f.body.stmts@),
            env: h as int,
        },
    }
}

impl View for Object {
    type V = ObjV;

    open spec fn view(&self) -> ObjV {
        obj_view(*self)
    }
}

/// The display name of a value's type.
pub open spec fn type_label(o: ObjV) -> Seq<char> {
    match o {
        ObjV::Int(_) => "INTEGER"@,
        ObjV::Bool(_) => "BOOLEAN"@,
        ObjV::Null => "NULL"@,
        ObjV::Ret(_) => "RETURN_VALUE"@,
        ObjV::Error(_) => "ERROR"@,
        ObjV::Func { .. } => "FUNCTION"@,
    }
}

/// A thing with a named runtime type.
pub trait Obj {
    /// The image of the type name `Type` returns.
    spec fn type_spec(&self) -> Seq<char>;

    /// The display name of the value's runtime type.
    #[allow(non_snake_case)]
    fn Type(&self) -> (t: ObjectType)
        ensures
            t@ == self.type_spec(),
    ;
}

impl Obj for Object {
    open spec fn type_spec(&self) -> Seq<char> {
        type_label(self@)
    }

    #[allow(non_snake_case)]
    fn Type(&self) -> (t: ObjectType) {
        match self {
            Object::Integer(_) => String::from_str("INTEGER"),
            Object::Boolean(_) => String::from_str("BOOLEAN"),
            Object::Null => String::from_str("NULL"),
            Object::ReturnValue(_) => String::from_str("RETURN_VALUE"),
            Object::Error(_) => String::from_str("ERROR"),
            Object::Function(_, _) => String::from_str("FUNCTION"),
        }
    }
}

/// Clones a runtime value; the clone has the same image.
pub fn clone_object(o: &Object) -> (r: Object)
    ensures
        r@ == o@,
    decreases *o,
{
    match o {
        Object::Integer(i) => Object::Integer(*i),
        Object::Boolean(b) => Object::Boolean(*b),
        Object::Null => Object::Null,
        Object::ReturnValue(inner) => Object::ReturnValue(Box::new(clone_object(inner))),
        Object::Error(m) => Object::Error(m.clone()),
        Object::Function(f, h) => Object::Function(clone_func_literal(f), *h),
    }
}

/// One name bound to one value.
#[derive(Debug)]
struct Binding {
    name: String,
    value: Object,
}

/// One environment record: its bindings, newest last, and the handle of the
/// enclosing record, if any.
#[derive(Debug)]
struct EnvRecord {
    entries: Vec<Binding>,
    outer: Option<usize>,
}

/// Mathematical image of a record: the bindings as a map (the newest binding
/// for a name wins) and the enclosing handle.
pub struct EnvRecV {
    pub bindings: Map<Seq<char>, ObjV>,
    pub outer: Option<int>,
}

/// The map a list of bindings denotes: later entries overwrite earlier ones.
spec fn entries_map(s: Seq<Binding>) -> Map<Seq<char>, ObjV>
    decreases s.len(),
{
    if s.len() == 0 {
        Map::<Seq<char>, ObjV>::empty()
    } else {
        entries_map(s.drop_last()).insert(s.last().name@, s.last().value@)
    }
}

impl View for EnvRecord {
    type V = EnvRecV;

    closed spec fn view(&self) -> EnvRecV {
        EnvRecV {
            bindings: entries_map(self.entries@),
            outer: match self.outer {
                Some(h) => Some(h as int),
                None => None,
            },
        }
    }
}

/// The arena of environment records.  Record 0 is the global scope.
#[derive(Debug)]
pub struct Enviornment {
    recs: Vec<EnvRecord>,
}

impl View for Enviornment {
    type V = Seq<EnvRecV>;

    closed spec fn view(&self) -> Seq<EnvRecV> {
        Seq::new(self.recs@.len(), |i: int| self.recs@[i]@)
    }
}

/// The message a lookup of an unbound name produces.
pub open spec fn not_found_msg(name: Seq<char>) -> Seq<char> {
    "identifier not found: "@ + name
}

/// Looking `name` up from record `h` outward: the nearest binding wins; an
/// unbound name is an error value.  The chain only ever goes to records with
/// smaller handles, as the arena builds them.
pub open spec fn lookup_s(envs: Seq<EnvRecV>, h: int, name: Seq<char>) -> ObjV
    decreases h,
{
    if 0 <= h < envs.len() {
        if envs[h].bindings.contains_key(name) {
            envs[h].bindings[name]
        } else {
            match envs[h].outer {
                Some(j) => if 0 <= j < h {
                    lookup_s(envs, j, name)
                } else {
                    ObjV::Error(not_found_msg(name))
                },
                None => ObjV::Error(not_found_msg(name)),
            }
        }
    } else {
        ObjV::Error(not_found_msg(name))
    }
}

/// Binding `name` to `v` in record `h`; no other record changes.
pub open spec fn set_s(envs: Seq<EnvRecV>, h: int, name: Seq<char>, v: ObjV) -> Seq<EnvRecV> {
    if 0 <= h < envs.len() {
        envs.update(h, EnvRecV { bindings: envs[h].bindings.insert(name, v), outer: envs[h].outer })
    } else {
        envs
    }
}

/// A fresh record enclosed by `outer`, appended to the arena.
pub open spec fn push_rec_s(envs: Seq<EnvRecV>, outer: Option<int>) -> Seq<EnvRecV> {
    envs.push(EnvRecV { bindings: Map::<Seq<char>, ObjV>::empty(), outer })
}

/// The value bound to `name` among `s[..i]`, newest entry first.
spec fn entries_get_upto(s: Seq<Binding>, i: int, name: Seq<char>) -> Option<ObjV>
    decreases i,
{
    if i <= 0 || i > s.len() {
        None
    } else if s[i - 1].name@ == name {
        Some(s[i - 1].value@)
    } else {
        entries_get_upto(s, i - 1, name)
    }
}

proof fn lemma_get_upto_prefix(s: Seq<Binding>, i: int, name: Seq<char>)
    requires
        0 <= i < s.len(),
    ensures
        entries_get_upto(s, i, name) == entries_get_upto(s.drop_last(), i, name),
    decreases i,
{
    if i > 0 {
        lemma_get_upto_prefix(s, i - 1, name);
    }
}

/// Scanning the bindings newest-first finds exactly what the map holds.
proof fn lemma_entries_get(s: Seq<Binding>, name: Seq<char>)
    ensures
        entries_get_upto(s, s.len() as int, name) == (if entries_map(s).contains_key(name) {
            Some(entries_map(s)[name])
        } else {
            None
        }),
    decreases s.len(),
{
    if s.len() > 0 {
        lemma_entries_get(s.drop_last(), name);
        if s.last().name@ != name {
            if s.len() > 1 {
                lemma_get_upto_prefix(s, s.len() - 1, name);
            }
        }
    }
}

fn find_value_from<'a>(entries: &'a Vec<Binding>, i: usize, name: &String) -> (r: Option<&'a Object>)
    requires
        i <= entries@.len(),
    ensures
        match r {
            Some(o) => entries_get_upto(entries@, i as int, name@) == Some(o@),
            None => entries_get_upto(entries@, i as int, name@) is None,
        },
    decreases i,
{
    if i == 0 {
        None
    } else if entries[i - 1].name == *name {
        Some(&entries[i - 1].value)
    } else {
        find_value_from(entries, i - 1, name)
    }
}

impl Enviornment {
    /// A fresh arena holding one empty global scope.
    pub fn new() -> (env: Enviornment)
        ensures
            env@ =~= seq![EnvRecV { bindings: Map::<Seq<char>, ObjV>::empty(), outer: None }],
    {
        let mut recs: Vec<EnvRecord> = Vec::new();
        recs.push(EnvRecord { entries: Vec::new(), outer: None });
        let env = Enviornment { recs };
        proof {
            assert(entries_map(Seq::<Binding>::empty()) =~= Map::<Seq<char>, ObjV>::empty());
            assert(env@ =~= seq![
                EnvRecV { bindings: Map::<Seq<char>, ObjV>::empty(), outer: None },
            ]);
        }
        env
    }

    /// The number of records in the arena.
    pub fn len(&self) -> (n: usize)
        ensures
            n == self@.len(),
    {
        self.recs.len()
    }

    /// Looks `name` up from record `h` outward, as `lookup_s` says.
    pub fn get_at(&self, h: usize, ident: &String) -> (obj: Object)
        ensures
            obj@ == lookup_s(self@, h as int, ident@),
        decreases h,
    {
        if h >= self.recs.len() {
            return self.not_found(ident);
        }
        let rec = &self.recs[h];
        proof {
            lemma_entries_get(rec.entries@, ident@);
        }
        match find_value_from(&rec.entries, rec.entries.len(), ident) {
            Some(o) => clone_object(o),
            None => match rec.outer {
                Some(j) => {
                    if j < h {
                        self.get_at(j, ident)
                    } else {
                        self.not_found(ident)
                    }
                },
                None => self.not_found(ident),
            },
        }
    }

    fn not_found(&self, ident: &String) -> (obj: Object)
        ensures
            obj@ == ObjV::Error(not_found_msg(ident@)),
    {
        let mut m = String::from_str("identifier not found: ");
        m.append(ident.as_str());
        Object::Error(m)
    }

    /// Looks `name` up in the global scope.
    pub fn get(&self, ident: &String) -> (obj: Object)
        ensures
            obj@ == lookup_s(self@, 0, ident@),
    {
        self.get_at(0, ident)
    }

    /// Binds `ident` to `obj` in record `h`, as `set_s` says.
    pub fn set_at(&mut self, h: usize, ident: String, obj: &Object)
        ensures
            final(self)@ == set_s(old(self)@, h as int, ident@, obj@),
    {
        if h >= self.recs.len() {
            return;
        }
        let value = clone_object(obj);
        let ghost old_entries = self.recs@[h as int].entries@;
        let binding = Binding { name: ident, value };
        let rec = &mut self.recs[h];
        rec.entries.push(binding);
        proof {
            let new_entries = self.recs@[h as int].entries@;
            assert(new_entries.drop_last() =~= old_entries);
            assert(final(self)@ =~= set_s(old(self)@, h as int, ident@, obj@));
        }
    }

    /// Binds `ident` to `obj` in the global scope.
    pub fn set(&mut self, ident: String, obj: &Object)
        ensures
            final(self)@ == set_s(old(self)@, 0, ident@, obj@),
    {
        self.set_at(0, ident, obj);
    }

    /// Appends a fresh record enclosed by `outer` and returns its handle.
    pub fn new_enclosed_env(&mut self, outer: usize) -> (h: usize)
        ensures
            final(self)@ == push_rec_s(old(self)@, Some(outer as int)),
            h == old(self)@.len(),
    {
        let h = self.recs.len();
        self.recs.push(EnvRecord { entries: Vec::new(), outer: Some(outer) });
        proof {
            assert(entries_map(Seq::<Binding>::empty()) =~= Map::<Seq<char>, ObjV>::empty());
            assert(final(self)@ =~= push_rec_s(old(self)@, Some(outer as int)));
        }
        h
    }
}


/// Decides equality of runtime values by image.  Two function values are
/// equal when their parameters, bodies and captured environments agree.
pub fn obj_eq(a: &Object, b: &Object) -> (r: bool)
    ensures
        r == (a@ == b@),
    decreases *a,
{
    match (a, b) {
        (Object::Integer(x), Object::Integer(y)) => *x == *y,
        (Object::Boolean(x), Object::Boolean(y)) => *x == *y,
        (Object::Null, Object::Null) => true,
        (Object::ReturnValue(x), Object::ReturnValue(y)) => obj_eq(x, y),
        (Object::Error(x), Object::Error(y)) => *x == *y,
        (Object::Function(f1, h1), Object::Function(f2, h2)) => *h1 == *h2 && idents_eq(
            &f1.params,
            &f2.params,
        ) && stmts_eq(&f1.body.stmts, &f2.body.stmts),
        _ => false,
    }
}

/// The image of the object sequence `s[i..]`.
pub open spec fn objs_view_from(s: Seq<Object>, i: int) -> Seq<ObjV>
    decreases s.len() - i,
{
    if i < 0 || i >= s.len() {
        Seq::<ObjV>::empty()
    } else {
        seq![obj_view(s[i])] + objs_view_from(s, i + 1)
    }
}

/// The image of a whole object sequence.
pub open spec fn objs_view(s: Seq<Object>) -> Seq<ObjV> {
    objs_view_from(s, 0)
}

proof fn lemma_objs_view_from(s: Seq<Object>, i: int)
    requires
        0 <= i <= s.len(),
    ensures
        objs_view_from(s, i).len() == s.len() - i,
        forall|j: int| i <= j < s.len() ==> objs_view_from(s, i)[j - i] == obj_view(s[j]),
    decreases s.len() - i,
{
    if i < s.len() {
        lemma_objs_view_from(s, i + 1);
    }
}

/// Pointwise description of the image of an object sequence.
pub proof fn lemma_objs_view(s: Seq<Object>)
    ensures
        objs_view(s).len() == s.len(),
        forall|j: int| 0 <= j < s.len() ==> (#[trigger] objs_view(s)[j]) == obj_view(s[j]),
{
    lemma_objs_view_from(s, 0);
}

/// Appending an object appends its image.
pub proof fn lemma_objs_view_push(s: Seq<Object>, x: Object)
    ensures
        objs_view(s.push(x)) == objs_view(s).push(obj_view(x)),
{
    lemma_objs_view(s);
    lemma_objs_view(s.push(x));
    assert(objs_view(s.push(x)) =~= objs_view(s).push(obj_view(x)));
}

} // verus!
