//! Match rules: what a subscriber wants to see of the messages on the bus.

use vstd::prelude::*;
use vstd::string::StringExecFns;
use vstd::string::StringSliceAdditionalSpecFns;
use vstd::utf8::decode_utf8;
use crate::address::text::{bytes_of, text_bytes, text_from_str};
use crate::error::Error;
use crate::message::body::{read_string_arg, string_arg, STRING};
use crate::message::codec::{Message, MessageView};
use crate::message::fields::{
    find_field, FieldCode, DESTINATION, INTERFACE, MEMBER, PATH, SENDER, SIGNATURE,
};
use crate::message::header::Type;
use crate::names::{
    is_unique_name, BusName, InterfaceName, MemberName, ObjectPath, UniqueName,
};
use crate::utils::bytes_eq;

verus! {

broadcast use vstd::utf8::encode_utf8_decode_utf8;

/// The greatest place of an argument that a rule can name.
pub const MAX_ARG_INDEX: u8 = 63;

/// What a match rule asks for, as plain values: nothing, or a value that the
/// message has to have, for each part of a message that rules know.
pub struct MatchRuleView {
    /// The type of the message.
    pub msg_type: Option<Type>,
    /// The name of the sender.
    pub sender: Option<Seq<u8>>,
    /// The interface.
    pub interface: Option<Seq<u8>>,
    /// The member.
    pub member: Option<Seq<u8>>,
    /// The path of the object.
    pub path: Option<Seq<u8>>,
    /// The path under which the object has to be.
    pub path_namespace: Option<Seq<u8>>,
    /// The unique name of the destination.
    pub destination: Option<Seq<u8>>,
    /// Arguments that have to be given strings, by their place.
    pub args: Seq<(u8, Seq<u8>)>,
    /// Arguments that have to be given paths or under them or above them, by
    /// their place.
    pub arg_paths: Seq<(u8, Seq<u8>)>,
    /// The namespace that the first argument has to be in.
    pub arg0ns: Option<Seq<u8>>,
}

/// The text of the first field of `m` with the code `code`, if there is one.
pub open spec fn field_text(m: MessageView, code: u8) -> Option<Seq<u8>> {
    match find_field(m.fields, code) {
        Some(v) => Some(v.text),
        None => None,
    }
}

/// Whether `a` starts with `prefix`.
pub open spec fn has_prefix(a: Seq<u8>, prefix: Seq<u8>) -> bool {
    prefix.len() <= a.len() && a.take(prefix.len() as int) == prefix
}

/// Whether the object path `path` is `namespace` or under it.
pub open spec fn in_path_namespace(path: Seq<u8>, namespace: Seq<u8>) -> bool {
    path == namespace || (namespace.len() == 1 && has_prefix(path, namespace)) || (path.len()
        > namespace.len() && has_prefix(path, namespace) && path[namespace.len() as int] == 0x2f)
}

/// Whether the name `name` is `namespace` or in it.
pub open spec fn in_name_namespace(name: Seq<u8>, namespace: Seq<u8>) -> bool {
    name == namespace || (name.len() > namespace.len() && has_prefix(name, namespace)
        && name[namespace.len() as int] == 0x2e)
}

/// Whether the path `arg` of a message meets the path `path` of a rule: they
/// are the same, or one of them ends with `/` and the other one starts with
/// it.
pub open spec fn path_arg_matches(arg: Seq<u8>, path: Seq<u8>) -> bool {
    arg == path || (path.len() > 0 && path.last() == 0x2f && has_prefix(arg, path)) || (arg.len()
        > 0 && arg.last() == 0x2f && has_prefix(path, arg))
}

/// The argument with the place `index` in the body of `m`, where it can be
/// read: see [`string_arg`].
pub open spec fn message_arg(m: MessageView, index: u8) -> Option<(u8, Seq<u8>)> {
    match field_text(m, SIGNATURE) {
        Some(types) => string_arg(m.primary.endian_sig, types, m.body, index as int),
        None => None,
    }
}

/// Whether the argument of `m` that `arg` names is a string and the one that
/// `arg` gives.
pub open spec fn arg_matches(m: MessageView, arg: (u8, Seq<u8>)) -> bool {
    message_arg(m, arg.0) == Some((STRING, arg.1))
}

/// Whether the argument of `m` that `arg` names is a string or a path that
/// meets the path that `arg` gives.
pub open spec fn arg_path_matches(m: MessageView, arg: (u8, Seq<u8>)) -> bool {
    message_arg(m, arg.0) matches Some((_, value)) && path_arg_matches(value, arg.1)
}

/// Whether the message `m` is one that the rule `r` asks for: it meets every
/// part of the rule.
///
/// A sender that the rule names by a well-known name is met by every
/// message: who owns that name only the bus knows.
pub open spec fn rule_matches(r: MatchRuleView, m: MessageView) -> bool {
    &&& (r.msg_type matches Some(t) ==> m.primary.msg_type == t)
    &&& (r.sender matches Some(s) ==> !is_unique_name(s) || field_text(m, SENDER) == Some(s))
    &&& (r.interface matches Some(i) ==> field_text(m, INTERFACE) == Some(i))
    &&& (r.member matches Some(x) ==> field_text(m, MEMBER) == Some(x))
    &&& (r.path matches Some(p) ==> field_text(m, PATH) == Some(p))
    &&& (r.path_namespace matches Some(ns) ==> (field_text(m, PATH) matches Some(p)
        && in_path_namespace(p, ns)))
    &&& (r.destination matches Some(d) ==> field_text(m, DESTINATION) == Some(d))
    &&& (forall|i: int| 0 <= i < r.args.len() ==> arg_matches(m, #[trigger] r.args[i]))
    &&& (forall|i: int| 0 <= i < r.arg_paths.len() ==> arg_path_matches(m, #[trigger] r.arg_paths[i]))
    &&& (r.arg0ns matches Some(ns) ==> (message_arg(m, 0) matches Some((t, value)) && t == STRING
        && in_name_namespace(value, ns)))
}

/// The path that a rule asks for: that of the object itself, or one that the
/// object has to be under.
#[derive(Debug, PartialEq, Eq)]
pub enum PathSpec {
    /// The path of the object.
    Path(ObjectPath),
    /// The path under which the object has to be.
    PathNamespace(ObjectPath),
}

/// A bus match rule for subscribing to specific messages.
///
/// A rule is made step by step: start with [`MatchRule::new`], which asks
/// for nothing and so is met by every message, and add what the messages
/// have to have.
#[derive(Debug, PartialEq, Eq)]
pub struct MatchRule {
    msg_type: Option<Type>,
    sender: Option<BusName>,
    interface: Option<InterfaceName>,
    member: Option<MemberName>,
    path_spec: Option<PathSpec>,
    destination: Option<UniqueName>,
    args: Vec<(u8, String)>,
    arg_paths: Vec<(u8, ObjectPath)>,
    arg0ns: Option<InterfaceName>,
}

impl View for MatchRule {
    type V = MatchRuleView;

    closed spec fn view(&self) -> MatchRuleView {
        MatchRuleView {
            msg_type: self.msg_type,
            sender: match self.sender {
                Some(v) => Some(v@),
                None => None,
            },
            interface: match self.interface {
                Some(v) => Some(v@),
                None => None,
            },
            member: match self.member {
                Some(v) => Some(v@),
                None => None,
            },
            path: match self.path_spec {
                Some(PathSpec::Path(p)) => Some(p@),
                _ => None,
            },
            path_namespace: match self.path_spec {
                Some(PathSpec::PathNamespace(p)) => Some(p@),
                _ => None,
            },
            destination: match self.destination {
                Some(v) => Some(v@),
                None => None,
            },
            args: self.args@.map_values(|a: (u8, String)| (a.0, text_bytes(a.1))),
            arg_paths: self.arg_paths@.map_values(|a: (u8, ObjectPath)| (a.0, a.1@)),
            arg0ns: match self.arg0ns {
                Some(v) => Some(v@),
                None => None,
            },
        }
    }
}

impl Clone for MatchRule {
    fn clone(&self) -> (res: Self)
        ensures
            res@ == self@,
    {
        let mut args: Vec<(u8, String)> = Vec::new();
        let n = self.args.len();
        let mut i: usize = 0;
        while i < n
            invariant
                i <= n,
                n == self.args@.len(),
                args@.len() == i,
                forall|j: int| 0 <= j < i ==> #[trigger] args@[j] == self.args@[j],
            decreases n - i,
        {
            args.push((self.args[i].0, self.args[i].1.clone()));
            i += 1;
        }
        let mut arg_paths: Vec<(u8, ObjectPath)> = Vec::new();
        let m = self.arg_paths.len();
        let mut k: usize = 0;
        while k < m
            invariant
                k <= m,
                m == self.arg_paths@.len(),
                arg_paths@.len() == k,
                forall|j: int|
                    0 <= j < k ==> (#[trigger] arg_paths@[j]).0 == self.arg_paths@[j].0
                        && arg_paths@[j].1@ == self.arg_paths@[j].1@,
            decreases m - k,
        {
            arg_paths.push((self.arg_paths[k].0, self.arg_paths[k].1.clone()));
            k += 1;
        }
        let res = MatchRule {
            msg_type: self.msg_type,
            sender: match &self.sender {
                Some(v) => Some(v.clone()),
                None => None,
            },
            interface: match &self.interface {
                Some(v) => Some(v.clone()),
                None => None,
            },
            member: match &self.member {
                Some(v) => Some(v.clone()),
                None => None,
            },
            path_spec: match &self.path_spec {
                Some(PathSpec::Path(p)) => Some(PathSpec::Path(p.clone())),
                Some(PathSpec::PathNamespace(p)) => Some(PathSpec::PathNamespace(p.clone())),
                None => None,
            },
            destination: match &self.destination {
                Some(v) => Some(v.clone()),
                None => None,
            },
            args,
            arg_paths,
            arg0ns: match &self.arg0ns {
                Some(v) => Some(v.clone()),
                None => None,
            },
        };
        assert(res@.args =~= self@.args);
        assert(res@.arg_paths =~= self@.arg_paths);
        res
    }
}

/// The rule that asks for nothing.
pub open spec fn empty_rule() -> MatchRuleView {
    MatchRuleView {
        msg_type: None,
        sender: None,
        interface: None,
        member: None,
        path: None,
        path_namespace: None,
        destination: None,
        args: Seq::empty(),
        arg_paths: Seq::empty(),
        arg0ns: None,
    }
}

/// Whether `a` starts with `prefix`.
fn starts_with(a: &[u8], prefix: &[u8]) -> (r: bool)
    ensures
        r == has_prefix(a@, prefix@),
{
    if prefix.len() > a.len() {
        return false;
    }
    let head = vstd::slice::slice_subrange(a, 0, prefix.len());
    assert(head@ =~= a@.take(prefix@.len() as int));
    bytes_eq(head, prefix)
}

/// Whether the object path `path` is `namespace` or under it.
fn path_in_namespace(path: &[u8], namespace: &[u8]) -> (r: bool)
    ensures
        r == in_path_namespace(path@, namespace@),
{
    bytes_eq(path, namespace) || (namespace.len() == 1 && starts_with(path, namespace)) || (
    path.len() > namespace.len() && starts_with(path, namespace) && path[namespace.len()] == 0x2f)
}

/// Whether the name `name` is `namespace` or in it.
fn name_in_namespace(name: &[u8], namespace: &[u8]) -> (r: bool)
    ensures
        r == in_name_namespace(name@, namespace@),
{
    bytes_eq(name, namespace) || (name.len() > namespace.len() && starts_with(name, namespace)
        && name[namespace.len()] == 0x2e)
}

/// Whether the path `arg` of a message meets the path `path` of a rule.
fn path_matches(arg: &[u8], path: &[u8]) -> (r: bool)
    ensures
        r == path_arg_matches(arg@, path@),
{
    bytes_eq(arg, path) || (path.len() > 0 && path[path.len() - 1] == 0x2f && starts_with(
        arg,
        path,
    )) || (arg.len() > 0 && arg[arg.len() - 1] == 0x2f && starts_with(path, arg))
}

/// Whether the first field of `msg` with the code `code` is there and has
/// the text `text`.
fn field_is(msg: &Message, code: FieldCode, text: &[u8]) -> (r: bool)
    ensures
        r == (field_text(msg@, code.spec_code()) == Some(text@)),
{
    match msg.fields().get_field(code) {
        Some(f) => bytes_eq(f.text(), text),
        None => false,
    }
}

/// The argument with the place `index` in the body of `msg`, where it can be
/// read.
fn arg_of(msg: &Message, index: u8) -> (res: Option<(u8, Vec<u8>)>)
    ensures
        match message_arg(msg@, index) {
            Some((t, value)) => res matches Some((kind, bytes)) && kind == t && bytes@ == value,
            None => res is None,
        },
{
    match msg.fields().get_field(FieldCode::Signature) {
        Some(f) => read_string_arg(
            msg.primary_header().endian_sig(),
            f.text(),
            msg.body(),
            index,
        ),
        None => None,
    }
}

impl MatchRule {
    /// The rule that asks for nothing: every message meets it.
    pub fn new() -> (rule: Self)
        ensures
            rule@ == empty_rule(),
    {
        let rule = MatchRule {
            msg_type: None,
            sender: None,
            interface: None,
            member: None,
            path_spec: None,
            destination: None,
            args: Vec::new(),
            arg_paths: Vec::new(),
            arg0ns: None,
        };
        assert(rule@.args =~= Seq::empty());
        assert(rule@.arg_paths =~= Seq::empty());
        rule
    }

    /// This rule, asking for messages of the type `msg_type` too.
    pub fn msg_type(self, msg_type: Type) -> (rule: Self)
        ensures
            rule@ == (MatchRuleView { msg_type: Some(msg_type), ..self@ }),
    {
        MatchRule { msg_type: Some(msg_type), ..self }
    }

    /// This rule, asking for messages from `sender` too.
    pub fn sender(self, sender: BusName) -> (rule: Self)
        ensures
            rule@ == (MatchRuleView { sender: Some(sender@), ..self@ }),
    {
        MatchRule { sender: Some(sender), ..self }
    }

    /// This rule, asking for messages of the interface `interface` too.
    pub fn interface(self, interface: InterfaceName) -> (rule: Self)
        ensures
            rule@ == (MatchRuleView { interface: Some(interface@), ..self@ }),
    {
        MatchRule { interface: Some(interface), ..self }
    }

    /// This rule, asking for messages with the member `member` too.
    pub fn member(self, member: MemberName) -> (rule: Self)
        ensures
            rule@ == (MatchRuleView { member: Some(member@), ..self@ }),
    {
        MatchRule { member: Some(member), ..self }
    }

    /// This rule, asking for messages about the object at `path` too. This
    /// takes the place of a path namespace that the rule asked for.
    pub fn path(self, path: ObjectPath) -> (rule: Self)
        ensures
            rule@ == (MatchRuleView { path: Some(path@), path_namespace: None, ..self@ }),
    {
        MatchRule { path_spec: Some(PathSpec::Path(path)), ..self }
    }

    /// This rule, asking for messages about objects at `namespace` or under
    /// it too. This takes the place of a path that the rule asked for.
    pub fn path_namespace(self, namespace: ObjectPath) -> (rule: Self)
        ensures
            rule@ == (MatchRuleView { path: None, path_namespace: Some(namespace@), ..self@ }),
    {
        MatchRule { path_spec: Some(PathSpec::PathNamespace(namespace)), ..self }
    }

    /// This rule, asking for messages to `destination` too.
    pub fn destination(self, destination: UniqueName) -> (rule: Self)
        ensures
            rule@ == (MatchRuleView { destination: Some(destination@), ..self@ }),
    {
        MatchRule { destination: Some(destination), ..self }
    }

    /// This rule, asking for messages whose argument at the place `index` is
    /// the string `value` too.
    ///
    /// A place beyond 63 gives `InvalidField`.
    pub fn arg(self, index: u8, value: &str) -> (res: Result<Self, Error>)
        ensures
            index <= MAX_ARG_INDEX ==> (res matches Ok(rule) && rule@ == (MatchRuleView {
                args: self@.args.push((index, value.spec_bytes())),
                ..self@
            })),
            index > MAX_ARG_INDEX ==> (res matches Err(e) && e is InvalidField),
    {
        if index > MAX_ARG_INDEX {
            return Err(Error::InvalidField);
        }
        let ghost before = self@;
        let mut rule = self;
        rule.args.push((index, text_from_str(value)));
        assert(rule@.args =~= before.args.push((index, value.spec_bytes())));
        Ok(rule)
    }

    /// This rule, asking for messages whose first argument is a string that
    /// is `namespace` or in it too.
    pub fn arg0ns(self, namespace: InterfaceName) -> (rule: Self)
        ensures
            rule@ == (MatchRuleView { arg0ns: Some(namespace@), ..self@ }),
    {
        MatchRule { arg0ns: Some(namespace), ..self }
    }

    /// This rule, asking for messages whose argument at the place `index` is
    /// a string or a path that meets `path` too.
    ///
    /// A place beyond 63 gives `InvalidField`.
    pub fn arg_path(self, index: u8, path: ObjectPath) -> (res: Result<Self, Error>)
        ensures
            index <= MAX_ARG_INDEX ==> (res matches Ok(rule) && rule@ == (MatchRuleView {
                arg_paths: self@.arg_paths.push((index, path@)),
                ..self@
            })),
            index > MAX_ARG_INDEX ==> (res matches Err(e) && e is InvalidField),
    {
        if index > MAX_ARG_INDEX {
            return Err(Error::InvalidField);
        }
        let ghost before = self@;
        let mut rule = self;
        rule.arg_paths.push((index, path));
        assert(rule@.arg_paths =~= before.arg_paths.push((index, path@)));
        Ok(rule)
    }

    /// Whether the message `msg` is one that this rule asks for.
    ///
    /// Arguments are compared only where they and the arguments before them
    /// are strings or object paths; a rule about another argument is met by
    /// no message.
    pub fn matches(&self, msg: &Message) -> (r: bool)
        ensures
            r == rule_matches(self@, msg@),
    {
        match self.msg_type {
            Some(t) => {
                if msg.message_type() != t {
                    return false;
                }
            },
            None => {},
        }
        match &self.sender {
            Some(s) => {
                let text = s.as_str();
                if crate::names::UniqueName::try_from(text).is_ok() && !field_is(
                    msg,
                    FieldCode::Sender,
                    text.as_bytes(),
                ) {
                    return false;
                }
            },
            None => {},
        }
        match &self.interface {
            Some(i) => {
                if !field_is(msg, FieldCode::Interface, i.as_str().as_bytes()) {
                    return false;
                }
            },
            None => {},
        }
        match &self.member {
            Some(x) => {
                if !field_is(msg, FieldCode::Member, x.as_str().as_bytes()) {
                    return false;
                }
            },
            None => {},
        }
        match &self.path_spec {
            Some(PathSpec::Path(p)) => {
                if !field_is(msg, FieldCode::Path, p.as_str().as_bytes()) {
                    return false;
                }
            },
            Some(PathSpec::PathNamespace(ns)) => {
                match msg.fields().get_field(FieldCode::Path) {
                    Some(f) => {
                        if !path_in_namespace(f.text(), ns.as_str().as_bytes()) {
                            return false;
                        }
                    },
                    None => {
                        return false;
                    },
                }
            },
            None => {},
        }
        match &self.destination {
            Some(d) => {
                if !field_is(msg, FieldCode::Destination, d.as_str().as_bytes()) {
                    return false;
                }
            },
            None => {},
        }
        match &self.arg0ns {
            Some(ns) => {
                match arg_of(msg, 0) {
                    Some((kind, value)) => {
                        if kind != STRING || !name_in_namespace(
                            value.as_slice(),
                            ns.as_str().as_bytes(),
                        ) {
                            return false;
                        }
                    },
                    None => {
                        return false;
                    },
                }
            },
            None => {},
        }
        self.args_match(msg) && self.arg_paths_match(msg)
    }

    /// Whether `msg` meets every part of the rule that gives the string of
    /// an argument.
    fn args_match(&self, msg: &Message) -> (r: bool)
        ensures
            r == (forall|i: int| 0 <= i < self@.args.len() ==> arg_matches(msg@, #[trigger] self@.args[i])),
    {
        let n = self.args.len();
        let mut i: usize = 0;
        while i < n
            invariant
                i <= n,
                n == self.args@.len(),
                n == self@.args.len(),
                forall|j: int| 0 <= j < i ==> arg_matches(msg@, #[trigger] self@.args[j]),
            decreases n - i,
        {
            let wanted = bytes_of(&self.args[i].1);
            let ok = match arg_of(msg, self.args[i].0) {
                Some((kind, value)) => kind == STRING && bytes_eq(
                    value.as_slice(),
                    wanted.as_slice(),
                ),
                None => false,
            };
            assert(self@.args[i as int] == (self.args@[i as int].0, text_bytes(self.args@[i as int].1)));
            if !ok {
                assert(!arg_matches(msg@, self@.args[i as int]));
                return false;
            }
            i += 1;
        }
        true
    }

    /// Whether `msg` meets every part of the rule that gives the path of an
    /// argument.
    fn arg_paths_match(&self, msg: &Message) -> (r: bool)
        ensures
            r == (forall|i: int|
                0 <= i < self@.arg_paths.len() ==> arg_path_matches(
                    msg@,
                    #[trigger] self@.arg_paths[i],
                )),
    {
        let n = self.arg_paths.len();
        let mut i: usize = 0;
        while i < n
            invariant
                i <= n,
                n == self.arg_paths@.len(),
                n == self@.arg_paths.len(),
                forall|j: int| 0 <= j < i ==> arg_path_matches(msg@, #[trigger] self@.arg_paths[j]),
            decreases n - i,
        {
            let ok = match arg_of(msg, self.arg_paths[i].0) {
                Some((_, value)) => path_matches(
                    value.as_slice(),
                    self.arg_paths[i].1.as_str().as_bytes(),
                ),
                None => false,
            };
            assert(self@.arg_paths[i as int] == (
                self.arg_paths@[i as int].0,
                self.arg_paths@[i as int].1@,
            ));
            if !ok {
                assert(!arg_path_matches(msg@, self@.arg_paths[i as int]));
                return false;
            }
            i += 1;
        }
        true
    }
}

/// One part of the text of a rule: the key, `=`, and the value in single
/// quotes.
pub open spec fn part_text(key: Seq<char>, value: Seq<char>) -> Seq<char> {
    key + "='"@ + value + "'"@
}

/// The text `acc` of a rule with the part `part` behind it, and a comma
/// between them where `acc` is not empty.
pub open spec fn with_part(acc: Seq<char>, part: Seq<char>) -> Seq<char> {
    if acc.len() == 0 {
        part
    } else {
        acc + ","@ + part
    }
}

/// The text `acc` with the part for `value` under the key `key` behind it,
/// where there is a value.
pub open spec fn with_text(acc: Seq<char>, key: Seq<char>, value: Option<Seq<u8>>) -> Seq<char> {
    match value {
        Some(v) => with_part(acc, part_text(key, decode_utf8(v))),
        None => acc,
    }
}

/// The name of a message type in a rule.
pub open spec fn type_text(t: Type) -> Seq<char> {
    match t {
        Type::Invalid => "invalid"@,
        Type::MethodCall => "method_call"@,
        Type::MethodReturn => "method_return"@,
        Type::Error => "error"@,
        Type::Signal => "signal"@,
    }
}

/// The decimal digit `d` as text.
pub open spec fn digit_text(d: u8) -> Seq<char> {
    if d == 0 {
        "0"@
    } else if d == 1 {
        "1"@
    } else if d == 2 {
        "2"@
    } else if d == 3 {
        "3"@
    } else if d == 4 {
        "4"@
    } else if d == 5 {
        "5"@
    } else if d == 6 {
        "6"@
    } else if d == 7 {
        "7"@
    } else if d == 8 {
        "8"@
    } else {
        "9"@
    }
}

/// The place `index` of an argument as text: one digit or two.
pub open spec fn index_text(index: u8) -> Seq<char> {
    if index < 10 {
        digit_text(index)
    } else {
        digit_text(index / 10) + digit_text(index % 10)
    }
}

/// The text `acc` with the parts for the arguments `args` from the place `i`
/// of the list on behind it; `suffix` stands behind the place of each
/// argument in its key.
pub open spec fn with_args(
    acc: Seq<char>,
    args: Seq<(u8, Seq<u8>)>,
    suffix: Seq<char>,
    i: int,
) -> Seq<char>
    decreases args.len() - i,
{
    if i < 0 || i >= args.len() {
        acc
    } else {
        with_args(
            with_part(
                acc,
                part_text("arg"@ + index_text(args[i].0) + suffix, decode_utf8(args[i].1)),
            ),
            args,
            suffix,
            i + 1,
        )
    }
}

/// The text of a rule as the bus takes it: the parts that the rule asks for,
/// with commas between them, in this order: type, sender, interface, member,
/// path or path namespace, destination, arguments, argument paths, namespace
/// of the first argument.
pub open spec fn rule_text(r: MatchRuleView) -> Seq<char> {
    let t0 = match r.msg_type {
        Some(t) => part_text("type"@, type_text(t)),
        None => Seq::empty(),
    };
    let t1 = with_text(t0, "sender"@, r.sender);
    let t2 = with_text(t1, "interface"@, r.interface);
    let t3 = with_text(t2, "member"@, r.member);
    let t4 = with_text(t3, "path"@, r.path);
    let t5 = with_text(t4, "path_namespace"@, r.path_namespace);
    let t6 = with_text(t5, "destination"@, r.destination);
    let t7 = with_args(t6, r.args, Seq::empty(), 0);
    let t8 = with_args(t7, r.arg_paths, "path"@, 0);
    with_text(t8, "arg0namespace"@, r.arg0ns)
}

/// Puts the part with the key `key` and the value `value` behind the text
/// `out` of a rule.
fn append_part(out: &mut String, key: &str, value: &str)
    ensures
        final(out)@ == with_part(old(out)@, part_text(key@, value@)),
{
    let ghost before = out@;
    if !out.as_str().is_empty() {
        out.append(",");
    }
    out.append(key);
    out.append("='");
    out.append(value);
    out.append("'");
    assert(out@ =~= with_part(before, part_text(key@, value@)));
}

/// The name of a message type in a rule.
fn kind_name(t: Type) -> (name: &'static str)
    ensures
        name@ == type_text(t),
{
    match t {
        Type::Invalid => "invalid",
        Type::MethodCall => "method_call",
        Type::MethodReturn => "method_return",
        Type::Error => "error",
        Type::Signal => "signal",
    }
}

/// The decimal digit `d` as text.
fn digit_name(d: u8) -> (name: &'static str)
    ensures
        name@ == digit_text(d),
{
    if d == 0 {
        "0"
    } else if d == 1 {
        "1"
    } else if d == 2 {
        "2"
    } else if d == 3 {
        "3"
    } else if d == 4 {
        "4"
    } else if d == 5 {
        "5"
    } else if d == 6 {
        "6"
    } else if d == 7 {
        "7"
    } else if d == 8 {
        "8"
    } else {
        "9"
    }
}

/// The key of the argument at the place `index`: `arg`, the place, and the
/// suffix `suffix`.
fn arg_key(index: u8, suffix: &str) -> (key: String)
    ensures
        key@ == "arg"@ + index_text(index) + suffix@,
{
    let mut key = String::from_str("arg");
    if index < 10 {
        key.append(digit_name(index));
    } else {
        key.append(digit_name(index / 10));
        key.append(digit_name(index % 10));
    }
    key.append(suffix);
    assert(key@ =~= "arg"@ + index_text(index) + suffix@);
    key
}

impl MatchRule {
    /// The text of the rule as the bus takes it: see [`rule_text`]. Two
    /// rules that ask for the same have the same text.
    pub fn to_string(&self) -> (text: String)
        ensures
            text@ == rule_text(self@),
    {
        let mut out = String::new();
        match self.msg_type {
            Some(t) => {
                append_part(&mut out, "type", kind_name(t));
            },
            None => {},
        }
        match &self.sender {
            Some(v) => {
                append_part(&mut out, "sender", v.as_str());
            },
            None => {},
        }
        match &self.interface {
            Some(v) => {
                append_part(&mut out, "interface", v.as_str());
            },
            None => {},
        }
        match &self.member {
            Some(v) => {
                append_part(&mut out, "member", v.as_str());
            },
            None => {},
        }
        match &self.path_spec {
            Some(PathSpec::Path(v)) => {
                append_part(&mut out, "path", v.as_str());
            },
            Some(PathSpec::PathNamespace(v)) => {
                append_part(&mut out, "path_namespace", v.as_str());
            },
            None => {},
        }
        match &self.destination {
            Some(v) => {
                append_part(&mut out, "destination", v.as_str());
            },
            None => {},
        }
        self.append_args(&mut out);
        self.append_arg_paths(&mut out);
        match &self.arg0ns {
            Some(v) => {
                append_part(&mut out, "arg0namespace", v.as_str());
            },
            None => {},
        }
        out
    }

    /// Puts the parts for the strings of arguments behind `out`.
    fn append_args(&self, out: &mut String)
        ensures
            final(out)@ == with_args(old(out)@, self@.args, Seq::empty(), 0),
    {
        let ghost start = out@;
        let n = self.args.len();
        let mut i: usize = 0;
        while i < n
            invariant
                i <= n,
                n == self.args@.len(),
                n == self@.args.len(),
                with_args(start, self@.args, Seq::empty(), 0) == with_args(
                    out@,
                    self@.args,
                    Seq::empty(),
                    i as int,
                ),
            decreases n - i,
        {
            assert(self@.args[i as int] == (self.args@[i as int].0, text_bytes(self.args@[i as int].1)));
            let key = arg_key(self.args[i].0, "");
            assert(key@ =~= "arg"@ + index_text(self.args@[i as int].0) + Seq::<char>::empty()) by {
                reveal_strlit("");
            }
            append_part(out, key.as_str(), self.args[i].1.as_str());
            i += 1;
        }
    }

    /// Puts the parts for the paths of arguments behind `out`.
    fn append_arg_paths(&self, out: &mut String)
        ensures
            final(out)@ == with_args(old(out)@, self@.arg_paths, "path"@, 0),
    {
        let ghost start = out@;
        let n = self.arg_paths.len();
        let mut i: usize = 0;
        while i < n
            invariant
                i <= n,
                n == self.arg_paths@.len(),
                n == self@.arg_paths.len(),
                with_args(start, self@.arg_paths, "path"@, 0) == with_args(
                    out@,
                    self@.arg_paths,
                    "path"@,
                    i as int,
                ),
            decreases n - i,
        {
            assert(self@.arg_paths[i as int] == (
                self.arg_paths@[i as int].0,
                self.arg_paths@[i as int].1@,
            ));
            let key = arg_key(self.arg_paths[i].0, "path");
            append_part(out, key.as_str(), self.arg_paths[i].1.as_str());
            i += 1;
        }
    }
}

} // verus!
