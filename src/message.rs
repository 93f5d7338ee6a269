//! The messages that travel through the hub, and the rules that a message
//! must meet before the hub may relay it.

use vstd::prelude::*;

verus! {

/// Who sent a message: an identity and a role.
#[derive(Debug)]
pub struct Sender {
    pub id: String,
    pub sender_type: String,
}

/// Whom a message is meant for: a scope, with the roles or identities that
/// the scope names.
#[derive(Debug)]
pub struct Target {
    pub scope: String,
    pub types: Vec<String>,
    pub ids: Vec<String>,
}

/// A message of the room protocol. The payload, when there is one, is kept
/// as JSON text: the hub relays it without looking inside.
#[derive(Debug)]
pub struct IncomingMessage {
    pub room_id: String,
    pub sender: Sender,
    pub target: Option<Target>,
    pub msg_command: String,
    pub payload: Option<String>,
}

/// The sender identity that heartbeats carry. The hub registers no
/// subscriber under it.
pub open spec fn heartbeat_sender_id() -> Seq<char> {
    "system/heartbeat"@
}

/// The heartbeat that the liveness probe sends to every push subscriber: the
/// reserved role "heartbeat" and command "PING", the reserved sender
/// identity, no target and no payload.
pub fn heartbeat_message(room_id: String) -> (m: IncomingMessage)
    ensures
        m.room_id == room_id,
        m.sender.id@ == heartbeat_sender_id(),
        m.sender.sender_type@ == "heartbeat"@,
        m.msg_command@ == "PING"@,
        m.target is None,
        m.payload is None,
{
    IncomingMessage {
        room_id,
        sender: Sender { id: String::from_str("system/heartbeat"), sender_type: String::from_str("heartbeat") },
        target: None,
        msg_command: String::from_str("PING"),
        payload: None,
    }
}

/// A check that a value meets the protocol's rules.
pub trait Validate {
    /// The first rule that the value breaks, as the text of the error that
    /// reports it; `None` when it breaks none.
    spec fn problem(&self) -> Option<Seq<char>>;

    /// `Ok` exactly when the value breaks no rule; otherwise the text of the
    /// first rule broken.
    fn validate(&self) -> (r: Result<(), String>)
        ensures
            match r {
                Ok(()) => self.problem() is None,
                Err(e) => self.problem() == Some(e@),
            },
    ;
}

/// A value that has passed its check.
pub struct ValidatedJson<T>(pub T);

impl<T: Validate> ValidatedJson<T> {
    /// Wraps `inner` when it passes its check; otherwise gives the error.
    pub fn check(inner: T) -> (r: Result<ValidatedJson<T>, String>)
        ensures
            match r {
                Ok(v) => v.0 == inner && inner.problem() is None,
                Err(e) => inner.problem() == Some(e@),
            },
    {
        match inner.validate() {
            Ok(()) => Ok(ValidatedJson(inner)),
            Err(e) => Err(e),
        }
    }
}

/// The characters with the Unicode White_Space property, which `trim`
/// removes.
pub open spec fn is_white_space(c: char) -> bool {
    let u = c as u32;
    ||| 0x09 <= u <= 0x0d
    ||| u == 0x20
    ||| u == 0x85
    ||| u == 0xa0
    ||| u == 0x1680
    ||| 0x2000 <= u <= 0x200a
    ||| u == 0x2028
    ||| u == 0x2029
    ||| u == 0x202f
    ||| u == 0x205f
    ||| u == 0x3000
}

/// Nothing but white space: what is left after trimming is empty.
pub open spec fn is_blank(s: Seq<char>) -> bool {
    forall|i: int| 0 <= i < s.len() ==> #[trigger] is_white_space(s[i])
}

pub(crate) fn white_space(c: char) -> (r: bool)
    ensures
        r == is_white_space(c),
{
    let u = c as u32;
    (0x09 <= u && u <= 0x0d) || u == 0x20 || u == 0x85 || u == 0xa0 || u == 0x1680 || (0x2000 <= u
        && u <= 0x200a) || u == 0x2028 || u == 0x2029 || u == 0x202f || u == 0x205f || u == 0x3000
}

/// Whether `s` holds nothing but white space.
pub fn blank(s: &str) -> (r: bool)
    ensures
        r == is_blank(s@),
{
    let mut all = true;
    for c in it: s.chars()
        invariant
            it.seq() == s@,
            all == (forall|i: int| 0 <= i < it.index() ==> #[trigger] is_white_space(s@[i])),
    {
        if !white_space(c) {
            all = false;
        }
    }
    all
}

/// The roles that a sender may have.
pub open spec fn is_known_role(t: Seq<char>) -> bool {
    ||| t == "учитель"@
    ||| t == "ученик"@
    ||| t == "наблюдатель"@
    ||| t == "ADMIN"@
    ||| t == "heartbeat"@
}

/// The error for an unknown role.
pub open spec fn role_error(t: Seq<char>) -> Seq<char> {
    "Неверный sender.type: "@ + t + ". Должно быть 'учитель', 'ученик' или 'наблюдатель'"@
}

/// The error for an unknown target scope.
pub open spec fn scope_error(scope: Seq<char>) -> Seq<char> {
    "Неверное target.scope: '"@ + scope + "'. Должно быть 'all', 'type' или 'ids'"@
}

/// The first rule that a target breaks: its scope is one of "all", "type"
/// and "ids", and the last two name at least one role or identity.
pub open spec fn target_problem(t: Target) -> Option<Seq<char>> {
    if t.scope@ == "all"@ {
        None
    } else if t.scope@ == "type"@ {
        if t.types@.len() == 0 {
            Some("Когда target.scope = 'type', поле target.types не должно быть пустым"@)
        } else {
            None
        }
    } else if t.scope@ == "ids"@ {
        if t.ids@.len() == 0 {
            Some("Когда target.scope = 'ids', поле target.ids не должно быть пустым"@)
        } else {
            None
        }
    } else {
        Some(scope_error(t.scope@))
    }
}

fn is_role(t: &String) -> (r: bool)
    ensures
        r == is_known_role(t@),
{
    *t == String::from_str("учитель") || *t == String::from_str("ученик") || *t == String::from_str(
        "наблюдатель",
    ) || *t == String::from_str("ADMIN") || *t == String::from_str("heartbeat")
}

fn check_target(t: &Target) -> (r: Result<(), String>)
    ensures
        match r {
            Ok(()) => target_problem(*t) is None,
            Err(e) => target_problem(*t) == Some(e@),
        },
{
    if t.scope == String::from_str("all") {
        Ok(())
    } else if t.scope == String::from_str("type") {
        if t.types.len() == 0 {
            Err(String::from_str("Когда target.scope = 'type', поле target.types не должно быть пустым"))
        } else {
            Ok(())
        }
    } else if t.scope == String::from_str("ids") {
        if t.ids.len() == 0 {
            Err(String::from_str("Когда target.scope = 'ids', поле target.ids не должно быть пустым"))
        } else {
            Ok(())
        }
    } else {
        let e = String::from_str("Неверное target.scope: '").concat(t.scope.as_str()).concat(
            "'. Должно быть 'all', 'type' или 'ids'",
        );
        Err(e)
    }
}

impl Validate for IncomingMessage {
    /// The room and the command are not blank, the sender's role is known,
    /// and the target, if any, is well formed; checked in that order.
    open spec fn problem(&self) -> Option<Seq<char>> {
        if is_blank(self.room_id@) {
            Some("Поле room_id не должно быть пустым"@)
        } else if !is_known_role(self.sender.sender_type@) {
            Some(role_error(self.sender.sender_type@))
        } else if self.target is Some && target_problem(self.target->0) is Some {
            target_problem(self.target->0)
        } else if is_blank(self.msg_command@) {
            Some("Поле msg_command не должно быть пустым"@)
        } else {
            None
        }
    }

    fn validate(&self) -> (r: Result<(), String>) {
        if blank(self.room_id.as_str()) {
            return Err(String::from_str("Поле room_id не должно быть пустым"));
        }
        if !is_role(&self.sender.sender_type) {
            let e = String::from_str("Неверный sender.type: ").concat(
                self.sender.sender_type.as_str(),
            ).concat(". Должно быть 'учитель', 'ученик' или 'наблюдатель'");
            return Err(e);
        }
        if let Some(t) = &self.target {
            match check_target(t) {
                Ok(()) => {},
                Err(e) => {
                    return Err(e);
                },
            }
        }
        if blank(self.msg_command.as_str()) {
            return Err(String::from_str("Поле msg_command не должно быть пустым"));
        }
        Ok(())
    }
}

} // verus!
