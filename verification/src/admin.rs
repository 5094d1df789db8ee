//! Decisions of the instance administration endpoints: who may call them,
//! how their query strings are read, and how health probes are judged.

use vstd::prelude::*;
use vstd::string::StringExecFns;
use crate::number::{decimal_text, parse_i32, parsed_i32, push_decimal};
use crate::text::{chars_of, string_of_range, text_is};

verus! {

/// Why an administration request is refused.
#[derive(Clone, Copy, PartialEq, Eq, Structural, Debug)]
pub enum AdminError {
    /// The caller is not an administrator.
    Forbidden,
    /// `class` is not one of `security`, `activity`, `system`.
    InvalidClass,
    /// `sort` is not one of `newest`, `oldest`.
    InvalidSort,
    /// `limit` does not parse as an `i32`.
    InvalidLimit,
}

/// The class of an event.
#[derive(Clone, Copy, PartialEq, Eq, Structural, Debug)]
pub enum EventClass {
    Security,
    Activity,
    System,
}

/// Query parameters of the global audit log.
pub struct AdminAuditLogParams {
    pub offset: i64,
    pub limit: i64,
    pub type_filter: Option<String>,
    pub class: Option<String>,
}

/// The page size used when the audit log request names none.
pub fn default_limit() -> (r: i64)
    ensures
        r == 20,
{
    20
}

/// What the global audit log is asked for once its parameters are read.
pub struct AuditLogQuery {
    pub offset: i64,
    pub limit: i64,
    pub class: Option<EventClass>,
    pub type_filter: Option<String>,
}

/// The class that a `class` parameter names, if any.
pub open spec fn class_named(s: Seq<char>) -> Option<EventClass> {
    if s == "security"@ {
        Some(EventClass::Security)
    } else if s == "activity"@ {
        Some(EventClass::Activity)
    } else if s == "system"@ {
        Some(EventClass::System)
    } else {
        None
    }
}

/// Whether a `class` parameter is absent or names a class.
pub open spec fn class_known(c: Option<String>) -> bool {
    match c {
        Some(c) => class_named(c@) is Some,
        None => true,
    }
}

/// The class that an optional `class` parameter asks for.
pub open spec fn class_of(c: Option<String>) -> Option<EventClass> {
    match c {
        Some(c) => class_named(c@),
        None => None,
    }
}

fn parse_class(s: &str) -> (r: Option<EventClass>)
    ensures
        r == class_named(s@),
{
    let cs = chars_of(s);
    if text_is(cs.as_slice(), "security") {
        Some(EventClass::Security)
    } else if text_is(cs.as_slice(), "activity") {
        Some(EventClass::Activity)
    } else if text_is(cs.as_slice(), "system") {
        Some(EventClass::System)
    } else {
        None
    }
}

/// Reads a request for the global audit log: only administrators may ask;
/// the offset is clamped to be non-negative, the limit to `1..=100`, and
/// the class, when given, must name one.
pub fn audit_log_query(is_admin: bool, params: AdminAuditLogParams) -> (r: Result<AuditLogQuery, AdminError>)
    ensures
        !is_admin ==> r == Err::<AuditLogQuery, AdminError>(AdminError::Forbidden),
        is_admin && !class_known(params.class) ==> r == Err::<AuditLogQuery, AdminError>(AdminError::InvalidClass),
        is_admin && class_known(params.class) ==> r is Ok,
        r matches Ok(q) ==> {
            &&& q.offset == crate::events::clamped_offset(params.offset as int)
            &&& q.limit == crate::events::clamped_limit(params.limit as int)
            &&& q.type_filter == params.type_filter
            &&& q.class == class_of(params.class)
        },
{
    if !is_admin {
        return Err(AdminError::Forbidden);
    }
    let offset = if params.offset < 0 {
        0
    } else {
        params.offset
    };
    let limit = if params.limit < 1 {
        1
    } else if params.limit > 100 {
        100
    } else {
        params.limit
    };
    let class = match &params.class {
        None => None,
        Some(c) => match parse_class(c.as_str()) {
            Some(k) => Some(k),
            None => {
                return Err(AdminError::InvalidClass);
            },
        },
    };
    Ok(AuditLogQuery { offset, limit, class, type_filter: params.type_filter })
}

/// The events of the global audit log with their actor, subject and the
/// subject's namespace, before any filter.
pub open spec fn audit_log_base() -> Seq<char> {
    "select e.id, e.trace_id, e.actor_id, e.ip_address, e.user_agent, e.subject_id_user, e.subject_id_org, e.subject_id_repo, e.class, e.type, e.payload, u.username as actor_username, coalesce(su.username, so.name, sr.name) as subject_name, coalesce(ruo.username, roo.name) as subject_namespace from events e  left join users u on u.id = e.actor_id left join users su on su.id = e.subject_id_user left join organizations so on so.id = e.subject_id_org left join repositories sr on sr.id = e.subject_id_repo left join users ruo on ruo.id = sr.owner_user left join organizations roo on roo.id = sr.owner_org where true"@
}

/// The filters, order and page of the global audit log query: the class
/// and the type when asked for, newest first (by id), then the limit and
/// the offset. The values are bound in that order, as `$1`, `$2`, ...
pub open spec fn audit_log_tail(class: bool, type_filter: bool) -> Seq<char> {
    if class && type_filter {
        " and e.class = $1 and e.type = $2 order by e.id desc limit $3 offset $4"@
    } else if class {
        " and e.class = $1 order by e.id desc limit $2 offset $3"@
    } else if type_filter {
        " and e.type = $1 order by e.id desc limit $2 offset $3"@
    } else {
        " order by e.id desc limit $1 offset $2"@
    }
}

impl AuditLogQuery {
    /// The query that reads the global audit log for this request; see
    /// [`audit_log_base`] and [`audit_log_tail`].
    pub fn to_sql(&self) -> (r: String)
        ensures
            r@ == audit_log_base() + audit_log_tail(self.class is Some, self.type_filter is Some),
    {
        let mut s = String::from_str("select e.id, e.trace_id, e.actor_id, e.ip_address, e.user_agent, e.subject_id_user, e.subject_id_org, e.subject_id_repo, e.class, e.type, e.payload, u.username as actor_username, coalesce(su.username, so.name, sr.name) as subject_name, coalesce(ruo.username, roo.name) as subject_namespace from events e  left join users u on u.id = e.actor_id left join users su on su.id = e.subject_id_user left join organizations so on so.id = e.subject_id_org left join repositories sr on sr.id = e.subject_id_repo left join users ruo on ruo.id = sr.owner_user left join organizations roo on roo.id = sr.owner_org where true");
        let class = self.class.is_some();
        let type_filter = self.type_filter.is_some();
        if class && type_filter {
            s.append(" and e.class = $1 and e.type = $2 order by e.id desc limit $3 offset $4");
        } else if class {
            s.append(" and e.class = $1 order by e.id desc limit $2 offset $3");
        } else if type_filter {
            s.append(" and e.type = $1 order by e.id desc limit $2 offset $3");
        } else {
            s.append(" order by e.id desc limit $1 offset $2");
        }
        s
    }
}

/// What the user listing is asked for: newest first or oldest first, and
/// how many at most.
pub struct UsersQuery {
    pub descending: bool,
    pub limit: i32,
}

/// Whether a `sort` parameter is absent or one of `newest`, `oldest`.
pub open spec fn sort_known(sort: Option<&str>) -> bool {
    match sort {
        Some(s) => s@ == "newest"@ || s@ == "oldest"@,
        None => true,
    }
}

/// Whether a `sort` parameter asks for the newest users first.
pub open spec fn sort_newest(sort: Option<&str>) -> bool {
    match sort {
        Some(s) => s@ == "newest"@,
        None => false,
    }
}

/// Whether a `limit` parameter is absent or parses as an `i32`.
pub open spec fn limit_known(limit: Option<&str>) -> bool {
    match limit {
        Some(l) => parsed_i32(l@) is Some,
        None => true,
    }
}

/// The limit that a `limit` parameter asks for; none means no limit.
pub open spec fn limit_of(limit: Option<&str>) -> i32 {
    match limit {
        Some(l) => parsed_i32(l@).unwrap(),
        None => i32::MAX,
    }
}

/// Law: the user listing is newest first exactly when `sort` is `newest`;
/// `oldest` and an absent `sort` list the oldest first.
pub proof fn lemma_users_sort_direction(sort: Option<&str>)
    ensures
        sort_newest(sort) <==> (sort matches Some(s) && s@ == "newest"@),
        sort matches Some(s) && s@ == "oldest"@ ==> !sort_newest(sort),
        sort is None ==> !sort_newest(sort),
        sort_known(sort) <==> (sort is None || (sort matches Some(s) && (s@ == "newest"@ || s@ == "oldest"@))),
{
    reveal_strlit("newest");
    reveal_strlit("oldest");
    if let Some(s) = sort {
        if s@ == "oldest"@ {
            assert(s@[0] == 'o');
            assert("newest"@[0] == 'n');
        }
    }
}

/// Law: each class is named by its own word and no other text names one;
/// an audit log request that is answered asks for an offset of at least
/// zero, a limit from one to a hundred, both as given when already within
/// those bounds, and the class its parameter names.
pub proof fn lemma_audit_log_request(c: Seq<char>, offset: int, limit: int)
    ensures
        class_named(c) == Some(EventClass::Security) <==> c == "security"@,
        class_named(c) == Some(EventClass::Activity) <==> c == "activity"@,
        class_named(c) == Some(EventClass::System) <==> c == "system"@,
        class_named(c) is None <==> (c != "security"@ && c != "activity"@ && c != "system"@),
        crate::events::clamped_offset(offset) >= 0,
        1 <= crate::events::clamped_limit(limit) <= 100,
        offset >= 0 ==> crate::events::clamped_offset(offset) == offset,
        1 <= limit <= 100 ==> crate::events::clamped_limit(limit) == limit,
        limit > 100 ==> crate::events::clamped_limit(limit) == 100,
        limit < 1 ==> crate::events::clamped_limit(limit) == 1,
{
    reveal_strlit("security");
    reveal_strlit("activity");
    reveal_strlit("system");
    assert("security"@ != "activity"@) by {
        assert("security"@[0] != "activity"@[0]);
    }
    assert("security"@ != "system"@) by {
        assert("security"@.len() != "system"@.len());
    }
    assert("activity"@ != "system"@) by {
        assert("activity"@.len() != "system"@.len());
    }
}


/// Law: without a `limit` the user listing is not limited (the largest
/// `i32`); a `limit` that reads as an `i32` is taken as it reads, and one
/// that does not is refused.
pub proof fn lemma_users_limit(limit: Option<&str>)
    ensures
        limit is None ==> limit_known(limit) && limit_of(limit) == i32::MAX,
        forall|l: &str, n: i32| limit == Some(l) && parsed_i32(l@) == Some(n) ==> limit_known(limit) && limit_of(limit) == n,
        forall|l: &str| limit == Some(l) && parsed_i32(l@) is None ==> !limit_known(limit),
{
}

/// Reads a request for the user listing: only administrators may ask;
/// `sort` is `newest` (descending) or `oldest` (ascending, the default);
/// `limit` must parse as an `i32` and is unbounded when absent.
pub fn users_query(is_admin: bool, sort: Option<&str>, limit: Option<&str>) -> (r: Result<UsersQuery, AdminError>)
    ensures
        !is_admin ==> r == Err::<UsersQuery, AdminError>(AdminError::Forbidden),
        is_admin && !sort_known(sort) ==> r == Err::<UsersQuery, AdminError>(AdminError::InvalidSort),
        is_admin && sort_known(sort) && !limit_known(limit) ==> r == Err::<UsersQuery, AdminError>(AdminError::InvalidLimit),
        is_admin && sort_known(sort) && limit_known(limit) ==> r is Ok,
        r matches Ok(q) ==> q.descending == sort_newest(sort) && q.limit == limit_of(limit),
{
    if !is_admin {
        return Err(AdminError::Forbidden);
    }
    let descending = match sort {
        None => false,
        Some(s) => {
            let cs = chars_of(s);
            if text_is(cs.as_slice(), "newest") {
                true
            } else if text_is(cs.as_slice(), "oldest") {
                false
            } else {
                return Err(AdminError::InvalidSort);
            }
        },
    };
    let limit = match limit {
        None => i32::MAX,
        Some(l) => {
            let cs = chars_of(l);
            match parse_i32(cs.as_slice()) {
                Some(v) => v,
                None => {
                    return Err(AdminError::InvalidLimit);
                },
            }
        },
    };
    Ok(UsersQuery { descending, limit })
}

/// The last occurrence of `c` in `s`, if any.
pub open spec fn last_char_index(s: Seq<char>, c: char) -> Option<int>
    decreases s.len(),
{
    if s.len() == 0 {
        None
    } else if s.last() == c {
        Some(s.len() - 1)
    } else {
        last_char_index(s.drop_last(), c)
    }
}

/// The host part of a bind address: what precedes its last `:`, or the
/// whole address when it has none.
pub open spec fn host_of(bind: Seq<char>) -> Seq<char> {
    match last_char_index(bind, ':') {
        Some(k) => bind.take(k),
        None => bind,
    }
}

/// The host that the SSH probe connects to, taken from the bind address.
pub fn ssh_host(bind_address: &str) -> (r: String)
    ensures
        r@ == host_of(bind_address@),
{
    let cs = chars_of(bind_address);
    let mut i = cs.len();
    assert(cs@.take(cs@.len() as int) =~= cs@);
    while i > 0
        invariant
            i <= cs@.len(),
            cs@ == bind_address@,
            last_char_index(cs@, ':') == last_char_index(cs@.take(i as int), ':'),
        decreases i,
    {
        assert(cs@.take(i as int).drop_last() =~= cs@.take(i - 1));
        if cs[i - 1] == ':' {
            assert(cs@.take(i as int).last() == ':');
            assert(last_char_index(cs@.take(i as int), ':') == Some((i - 1) as int));
            assert(cs@.take(i - 1) =~= cs@.subrange(0, i - 1));
            return string_of_range(cs.as_slice(), 0, i - 1);
        }
        i -= 1;
    }
    assert(cs@.take(0) =~= Seq::<char>::empty());
    assert(cs@.subrange(0, cs@.len() as int) =~= cs@);
    string_of_range(cs.as_slice(), 0, cs.len())
}

/// The SSH port setting as a port number, if it is within `0..=65535`.
pub fn ssh_port(port: i32) -> (r: Option<u16>)
    ensures
        r matches Some(p) ==> p == port,
        r is None <==> !(0 <= port <= 65535),
{
    if 0 <= port && port <= 65535 {
        Some(port as u16)
    } else {
        None
    }
}

/// The state of one component of the instance.
pub enum ComponentStatus {
    Healthy,
    Degraded(String),
    Unhealthy,
    Disabled,
}

/// Whether a status is `Degraded` with the message `m`.
pub open spec fn degraded_with(s: ComponentStatus, m: Seq<char>) -> bool {
    match s {
        ComponentStatus::Degraded(x) => x@ == m,
        _ => false,
    }
}

/// The message of a database probe that counted an unexpected number of rows.
pub open spec fn rows_message(rows: nat) -> Seq<char> {
    "database returned "@ + decimal_text(rows) + " rows but expected 1"@
}

/// Judges the database probe: healthy when it affected exactly one row,
/// degraded with the row count otherwise, unhealthy when it failed.
pub fn database_status(rows_affected: Option<u64>) -> (r: ComponentStatus)
    ensures
        match rows_affected {
            Some(n) => if n == 1 {
                r is Healthy
            } else {
                degraded_with(r, rows_message(n as nat))
            },
            None => r is Unhealthy,
        },
{
    match rows_affected {
        Some(n) => {
            if n == 1 {
                ComponentStatus::Healthy
            } else {
                let mut m = String::from_str("database returned ");
                push_decimal(&mut m, n);
                m.append(" rows but expected 1");
                ComponentStatus::Degraded(m)
            }
        },
        None => ComponentStatus::Unhealthy,
    }
}

/// How an attempt to reach the SSH server ended, with the time it took.
pub enum ConnectOutcome {
    Connected(u64),
    Failed(u64, String),
    TimedOut,
}

/// Judges the SSH probe. With no SSH server running it is disabled; when
/// its task has ended it is unhealthy; otherwise the connection attempt
/// decides.
pub fn ssh_status(started: bool, finished: bool, outcome: ConnectOutcome) -> (r: (Option<u64>, ComponentStatus))
    ensures
        !started ==> r.0 is None && r.1 is Disabled,
        started && finished ==> r.0 is None && r.1 is Unhealthy,
        started && !finished ==> match outcome {
            ConnectOutcome::Connected(l) => r.0 == Some(l) && r.1 is Healthy,
            ConnectOutcome::Failed(l, e) => r.0 == Some(l) && degraded_with(r.1, e@),
            ConnectOutcome::TimedOut => r.0 is None && degraded_with(r.1, "5sec time out reached trying to connect to ssh"@),
        },
{
    if !started {
        return (None, ComponentStatus::Disabled);
    }
    if finished {
        return (None, ComponentStatus::Unhealthy);
    }
    match outcome {
        ConnectOutcome::Connected(l) => (Some(l), ComponentStatus::Healthy),
        ConnectOutcome::Failed(l, e) => (Some(l), ComponentStatus::Degraded(e)),
        ConnectOutcome::TimedOut => (None, ComponentStatus::Degraded(String::from_str("5sec time out reached trying to connect to ssh"))),
    }
}

/// Judges the mail probe: `None` when no mail transport is configured,
/// else the latency and whether the connection test succeeded (`Err` when
/// it failed outright).
pub fn email_status(probe: Option<(u64, Result<bool, ()>)>) -> (r: (Option<u64>, ComponentStatus))
    ensures
        match probe {
            None => r.0 is None && r.1 is Disabled,
            Some((l, Ok(true))) => r.0 == Some(l) && r.1 is Healthy,
            Some((_, Ok(false))) => r.0 is None && degraded_with(r.1, "email pool is connected but SMTP didnt return the NOOP"@),
            Some((_, Err(_))) => r.0 is None && r.1 is Unhealthy,
        },
{
    match probe {
        None => (None, ComponentStatus::Disabled),
        Some((l, Ok(true))) => (Some(l), ComponentStatus::Healthy),
        Some((_, Ok(false))) => (None, ComponentStatus::Degraded(String::from_str("email pool is connected but SMTP didnt return the NOOP"))),
        Some((_, Err(_))) => (None, ComponentStatus::Unhealthy),
    }
}

/// Judges the job queue: healthy when its connection answers.
pub fn workers_status(connected: bool) -> (r: ComponentStatus)
    ensures
        connected ==> r is Healthy,
        !connected ==> r is Unhealthy,
{
    if connected {
        ComponentStatus::Healthy
    } else {
        ComponentStatus::Unhealthy
    }
}

/// Disk use of the repositories directory: the total less what is available.
pub fn used_space(total_space: u64, available_space: u64) -> (r: u64)
    requires
        available_space <= total_space,
    ensures
        r == total_space - available_space,
{
    total_space - available_space
}

} // verus!
