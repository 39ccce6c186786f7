//! Syslog authentication logs (sshd, sudo, pam).
use crate::adapters::{
    batch_of, is_edge, is_event, is_resolved_entity, lemma_batch_of_empty, lemma_batch_of_push,
    same_graph, IngestionBatch, Record,
};
use crate::domain::{Edge, Event};
use crate::json_value::{
    empty_object, string_object, string_object1, string_object3, string_object4, JsonData,
};
use crate::normalization::identity::{resolved_name, resolved_type, IdentityConfig, IdentityResolver};
use crate::normalization::timestamp::{parse_timestamp_in_year, timestamp_reading_at};
use crate::text::{
    before_first, contains_str, contains_text, find_text, lines_str, lines_text, owned,
    split_once_str, split_once_text, trim_start_str, trim_start_text, trim_str, trim_text,
    words_str, words_text,
};
use crate::time::{current_instant, format_instant, Timestamp};
use vstd::prelude::*;
use vstd::string::StringSliceAdditionalSpecFns;
use vstd::utf8::{decode_utf8, encode_utf8, is_char_boundary};

verus! {

/// The part of `text` after the first `start` and before the next `end`, trimmed.
pub open spec fn extract_between_text(text: Seq<char>, start: Seq<char>, end: Seq<char>) -> Option<
    Seq<char>,
> {
    match split_once_text(text, start) {
        Some((_, rest)) => match find_text(rest, end) {
            Some(e) => Some(trim_text(rest.take(e))),
            None => None,
        },
        None => None,
    }
}

/// The part of `text` after the first `start`, trimmed.
pub open spec fn extract_after_text(text: Seq<char>, start: Seq<char>) -> Option<Seq<char>> {
    match split_once_text(text, start) {
        Some((_, rest)) => Some(trim_text(rest)),
        None => None,
    }
}

/// The text found, or a default.
pub open spec fn text_or(found: Option<Seq<char>>, default: Seq<char>) -> Seq<char> {
    match found {
        Some(t) => t,
        None => default,
    }
}

/// The first white-space separated word of `s`, or a default.
pub open spec fn first_word_or(s: Seq<char>, default: Seq<char>) -> Seq<char> {
    if words_text(s).len() > 0 {
        words_text(s)[0]
    } else {
        default
    }
}

/// The part of `text` after the first `start` and before the next `end`, trimmed.
pub fn extract_between(text: &str, start: &str, end: &str) -> (r: Option<String>)
    ensures
        match r {
            Some(s) => extract_between_text(text@, start@, end@) == Some(s@),
            None => extract_between_text(text@, start@, end@) is None,
        },
{
    let (_, rest) = split_once_str(text, start)?;
    let (inner, _) = split_once_str(rest, end)?;
    Some(owned(trim_str(inner)))
}

/// The part of `text` after the first `start`, trimmed.
pub fn extract_after(text: &str, start: &str) -> (r: Option<String>)
    ensures
        match r {
            Some(s) => extract_after_text(text@, start@) == Some(s@),
            None => extract_after_text(text@, start@) is None,
        },
{
    let (_, rest) = split_once_str(text, start)?;
    Some(owned(trim_str(rest)))
}

/// The kinds of authentication messages.
pub enum AuthAction {
    SshLogin,
    AuthFailure,
    SudoExec,
    Other,
}

/// How a message is classified, from its wording.
pub open spec fn auth_action(m: Seq<char>) -> AuthAction {
    if contains_text(m, "Accepted password"@) || contains_text(m, "Accepted publickey"@) {
        AuthAction::SshLogin
    } else if contains_text(m, "Failed password"@) || contains_text(m, "authentication failure"@) {
        AuthAction::AuthFailure
    } else if contains_text(m, "sudo:"@) || contains_text(m, "COMMAND="@) {
        AuthAction::SudoExec
    } else {
        AuthAction::Other
    }
}

/// The user of "Accepted ... for <user> from ...".
pub open spec fn login_user(m: Seq<char>) -> Seq<char> {
    text_or(extract_between_text(m, "for "@, " from"@), "unknown"@)
}

/// The address of "... from <ip> port ...".
pub open spec fn message_ip(m: Seq<char>) -> Seq<char> {
    match extract_after_text(m, "from "@) {
        Some(s) => first_word_or(s, "0.0.0.0"@),
        None => "0.0.0.0"@,
    }
}

/// The user of a failed login, invalid users included.
pub open spec fn failed_user(m: Seq<char>) -> Seq<char> {
    if contains_text(m, "for invalid user "@) {
        text_or(extract_between_text(m, "for invalid user "@, " from"@), "invalid"@)
    } else {
        login_user(m)
    }
}

/// The user of "<user> : TTY=... ; USER=<target> ; COMMAND=<cmd>".
pub open spec fn sudo_user(m: Seq<char>) -> Seq<char> {
    trim_text(before_first(m, ":"@))
}

/// The target user of a sudo command.
pub open spec fn sudo_target(m: Seq<char>) -> Seq<char> {
    text_or(extract_between_text(m, "USER="@, " ;"@), "root"@)
}

/// The command of a sudo line.
pub open spec fn sudo_command(m: Seq<char>) -> Seq<char> {
    text_or(extract_after_text(m, "COMMAND="@), Seq::empty())
}

/// The first 15 bytes of a line (the syslog timestamp), when they end at a character.
pub open spec fn head15(t: Seq<char>) -> Seq<char> {
    decode_utf8(encode_utf8(t).subrange(0, 15))
}

/// The line after its first 15 bytes.
pub open spec fn tail15(t: Seq<char>) -> Seq<char> {
    decode_utf8(encode_utf8(t).subrange(15, encode_utf8(t).len() as int))
}

/// A trimmed line can be cut after its first 15 bytes (or is shorter).
pub open spec fn header_cut_ok(t: Seq<char>) -> bool {
    encode_utf8(t).len() < 15 || is_char_boundary(encode_utf8(t), 15)
}

/// The time read from the first 15 bytes of a trimmed line, in the year of `now`.
pub open spec fn line_header_time(t: Seq<char>, now: Timestamp) -> Option<Timestamp> {
    if encode_utf8(t).len() >= 15 {
        timestamp_reading_at(head15(t), now)
    } else {
        None
    }
}

/// The time of a trimmed line: that of its header, or `now`.
pub open spec fn line_time(t: Seq<char>, now: Timestamp) -> Timestamp {
    match line_header_time(t, now) {
        Some(x) => x,
        None => now,
    }
}

/// The line after its timestamp, without leading white space.
pub open spec fn line_body(t: Seq<char>, now: Timestamp) -> Seq<char> {
    if line_header_time(t, now) is Some {
        trim_start_text(tail15(t))
    } else {
        trim_start_text(t)
    }
}

/// "<host> <process>" before the first colon.
pub open spec fn line_header(t: Seq<char>, now: Timestamp) -> Seq<char> {
    before_first(line_body(t, now), ":"@)
}

/// The message after the first colon (or the whole body), trimmed.
pub open spec fn line_message(t: Seq<char>, now: Timestamp) -> Seq<char> {
    match split_once_text(line_body(t, now), ":"@) {
        Some((_, m)) => trim_text(m),
        None => trim_text(line_body(t, now)),
    }
}

/// The host named in the header, or `localhost`.
pub open spec fn line_host(t: Seq<char>, now: Timestamp) -> Seq<char> {
    let w = words_text(line_header(t, now));
    if w.len() > 0 {
        w[0]
    } else {
        "localhost"@
    }
}

/// The process named in the header, or `auth`.
pub open spec fn line_process(t: Seq<char>, now: Timestamp) -> Seq<char> {
    let w = words_text(line_header(t, now));
    if w.len() > 1 {
        w[1]
    } else {
        "auth"@
    }
}

/// The record of a non-empty trimmed line `t`, read with the clock at `now`.
pub open spec fn is_auth_record(rec: Record, rules: IdentityConfig, t: Seq<char>, now: Timestamp) -> bool {
    let at = line_time(t, now);
    let m = line_message(t, now);
    let ents = rec.0@;
    let ev = rec.1;
    let edges = rec.2@;
    let empty = JsonData::Object(Seq::empty());
    &&& ents.len() >= 1
    &&& is_resolved_entity(
        ents[0],
        rules,
        line_host(t, now),
        "host"@,
        string_object(seq![("process"@, line_process(t, now))]),
        at,
    )
    &&& match auth_action(m) {
        AuthAction::SshLogin => {
            &&& ents.len() == 3
            &&& edges.len() == 2
            &&& is_resolved_entity(ents[1], rules, login_user(m), "user"@, empty, at)
            &&& is_resolved_entity(ents[2], rules, message_ip(m), "ip_address"@, empty, at)
            &&& is_edge(edges[0], ents[1].id, ents[0].id, "logged_into"@, at)
            &&& is_edge(edges[1], ents[1].id, ents[2].id, "connected_from"@, at)
            &&& is_event(
                ev,
                "ssh_login_success"@,
                at,
                ents[1].id,
                Some(ents[0].id),
                string_object(
                    seq![("action"@, "ssh_login_success"@), ("ip"@, message_ip(m)), ("raw_message"@, m), ("user"@, login_user(m))],
                ),
            )
        },
        AuthAction::AuthFailure => {
            &&& ents.len() == 3
            &&& edges.len() == 1
            &&& is_resolved_entity(ents[1], rules, failed_user(m), "user"@, empty, at)
            &&& is_resolved_entity(ents[2], rules, message_ip(m), "ip_address"@, empty, at)
            &&& is_edge(edges[0], ents[1].id, ents[2].id, "failed_login_from"@, at)
            &&& is_event(
                ev,
                "auth_failed"@,
                at,
                ents[1].id,
                Some(ents[0].id),
                string_object(
                    seq![("action"@, "auth_failed"@), ("ip"@, message_ip(m)), ("raw_message"@, m), ("user"@, failed_user(m))],
                ),
            )
        },
        AuthAction::SudoExec => {
            &&& ents.len() == 3
            &&& edges.len() == 1
            &&& is_resolved_entity(ents[1], rules, sudo_user(m), "user"@, empty, at)
            &&& is_resolved_entity(ents[2], rules, sudo_target(m), "user"@, empty, at)
            &&& is_edge(edges[0], ents[1].id, ents[2].id, "escalated_to"@, at)
            &&& is_event(
                ev,
                "sudo_exec"@,
                at,
                ents[1].id,
                Some(ents[2].id),
                string_object(
                    seq![("action"@, "sudo_exec"@), ("command"@, sudo_command(m)), ("raw_message"@, m), ("target_user"@, sudo_target(m))],
                ),
            )
        },
        AuthAction::Other => {
            &&& ents.len() == 1
            &&& edges.len() == 0
            &&& is_event(
                ev,
                "syslog_auth_event"@,
                at,
                ents[0].id,
                None,
                string_object(
                    seq![("action"@, "syslog_auth_event"@), ("process"@, line_process(t, now)), ("raw_message"@, m)],
                ),
            )
        },
    }
}

/// The record of a non-blank line, read with the clock at some instant.
pub open spec fn is_auth_line_record(rec: Record, rules: IdentityConfig, line: Seq<char>) -> bool {
    exists|now: Timestamp| now.valid() && #[trigger] is_auth_record(rec, rules, trim_text(line), now)
}

/// The lines of `content` that hold more than white space.
pub open spec fn nonblank_lines(content: Seq<char>) -> Seq<Seq<char>> {
    nonblank(lines_text(content))
}

/// The texts of `ls` that hold more than white space.
pub open spec fn nonblank(ls: Seq<Seq<char>>) -> Seq<Seq<char>> {
    ls.filter(|l: Seq<char>| trim_text(l).len() > 0)
}

/// Parser of syslog authentication logs.
pub struct SyslogAuthAdapter;

/// Cuts a trimmed line after its first 15 bytes, when it has that many.
fn cut_header(t: &str) -> (r: Option<(&str, &str)>)
    requires
        header_cut_ok(t@),
    ensures
        encode_utf8(t@).len() >= 15 ==> (r matches Some((a, b)) && a@ == head15(t@) && b@ == tail15(t@)),
        encode_utf8(t@).len() < 15 ==> r is None,
{
    let byte_len = t.as_bytes().len();
    if byte_len >= 15 {
        let (a, b) = t.split_at(15);
        proof {
            vstd::utf8::encode_utf8_decode_utf8(a@);
            vstd::utf8::encode_utf8_decode_utf8(b@);
            assert(a.spec_bytes() == encode_utf8(a@));
            assert(b.spec_bytes() == encode_utf8(b@));
            assert(t.spec_bytes() == encode_utf8(t@));
        }
        Some((a, b))
    } else {
        None
    }
}

/// The first word of `s`, or a default.
fn first_word_or_exec(s: &str, default: &str) -> (r: String)
    ensures
        r@ == first_word_or(s@, default@),
{
    let w = words_str(s);
    if w.len() > 0 {
        owned(w[0])
    } else {
        owned(default)
    }
}

fn message_ip_exec(m: &str) -> (r: String)
    ensures
        r@ == message_ip(m@),
{
    match extract_after(m, "from ") {
        Some(s) => first_word_or_exec(s.as_str(), "0.0.0.0"),
        None => owned("0.0.0.0"),
    }
}

fn login_user_exec(m: &str) -> (r: String)
    ensures
        r@ == login_user(m@),
{
    match extract_between(m, "for ", " from") {
        Some(u) => u,
        None => owned("unknown"),
    }
}

/// Classifies an authentication message.
pub fn classify_auth_message(m: &str) -> (r: AuthAction)
    ensures
        r == auth_action(m@),
{
    if contains_str(m, "Accepted password") || contains_str(m, "Accepted publickey") {
        AuthAction::SshLogin
    } else if contains_str(m, "Failed password") || contains_str(m, "authentication failure") {
        AuthAction::AuthFailure
    } else if contains_str(m, "sudo:") || contains_str(m, "COMMAND=") {
        AuthAction::SudoExec
    } else {
        AuthAction::Other
    }
}

impl SyslogAuthAdapter {
    pub fn new() -> (r: SyslogAuthAdapter) {
        SyslogAuthAdapter
    }

    /// Identifier of the adapter.
    pub fn name(&self) -> (r: &'static str)
        ensures
            r@ == "syslog_auth"@,
    {
        "syslog_auth"
    }

    /// Whether a sample looks like an authentication log.
    pub fn can_parse(&self, sample: &str) -> (r: bool)
        ensures
            r == (contains_text(sample@, "sshd"@) || contains_text(sample@, "sudo"@) || contains_text(
                sample@,
                "pam_unix"@,
            ) || contains_text(sample@, "Accepted password"@) || contains_text(
                sample@,
                "Failed password"@,
            )),
    {
        contains_str(sample, "sshd") || contains_str(sample, "sudo") || contains_str(
            sample,
            "pam_unix",
        ) || contains_str(sample, "Accepted password") || contains_str(sample, "Failed password")
    }

    /// Parses one log line, reading the clock for the year of syslog timestamps
    /// and for lines without a timestamp.
    pub fn parse_line(&self, line: &str, resolver: &IdentityResolver) -> (r: Option<Record>)
        requires
            header_cut_ok(trim_text(line@)),
        ensures
            trim_text(line@).len() == 0 ==> r is None,
            trim_text(line@).len() > 0 ==> r is Some && is_auth_line_record(
                r->Some_0,
                resolver.rules(),
                line@,
            ),
    {
        if trim_str(line).is_empty() {
            return None;
        }
        let now = current_instant();
        self.parse_line_at(line, resolver, now)
    }

    /// Parses every non-blank line of `content`, in order.
    pub fn parse(&self, content: &str, resolver: &IdentityResolver) -> (r: IngestionBatch)
        requires
            forall|i: int|
                0 <= i < lines_text(content@).len() ==> header_cut_ok(
                    trim_text(#[trigger] lines_text(content@)[i]),
                ),
        ensures
            exists|recs: Seq<Record>|
                {
                    &&& recs.len() == nonblank_lines(content@).len()
                    &&& batch_of(r, recs)
                    &&& forall|i: int|
                        0 <= i < recs.len() ==> #[trigger] is_auth_line_record(
                            recs[i],
                            resolver.rules(),
                            nonblank_lines(content@)[i],
                        )
                },
    {
        let mut batch = IngestionBatch::new();
        let lines = lines_str(content);
        let ghost all = lines_text(content@);
        let ghost mut recs: Seq<Record> = Seq::empty();
        proof {
            lemma_batch_of_empty(batch);
            assert(nonblank(all.take(0)) =~= Seq::<Seq<char>>::empty());
        }
        let mut i: usize = 0;
        while i < lines.len()
            invariant
                i <= lines@.len(),
                lines@.len() == all.len(),
                forall|k: int| 0 <= k < lines@.len() ==> (#[trigger] lines@[k])@ == all[k],
                forall|k: int| 0 <= k < all.len() ==> header_cut_ok(trim_text(#[trigger] all[k])),
                recs.len() == nonblank(all.take(i as int)).len(),
                batch_of(batch, recs),
                forall|k: int|
                    0 <= k < recs.len() ==> #[trigger] is_auth_line_record(
                        recs[k],
                        resolver.rules(),
                        nonblank(all.take(i as int))[k],
                    ),
            decreases lines@.len() - i,
        {
            let ghost prev = nonblank(all.take(i as int));
            proof {
                reveal_with_fuel(Seq::filter, 1);
                assert(all.take(i + 1).drop_last() =~= all.take(i as int));
                assert(lines@[i as int]@ == all[i as int]);
            }
            let ghost next = nonblank(all.take(i + 1));
            if let Some(rec) = self.parse_line(lines[i], resolver) {
                proof {
                    assert(next == prev.push(all[i as int]));
                }
                let ghost before = batch;
                batch.add_record(rec);
                proof {
                    lemma_batch_of_push(before, recs, rec, batch);
                    let ghost old_recs = recs;
                    recs = recs.push(rec);
                    assert forall|k: int| 0 <= k < recs.len() implies #[trigger] is_auth_line_record(
                        recs[k],
                        resolver.rules(),
                        next[k],
                    ) by {
                        if k < old_recs.len() {
                            assert(recs[k] == old_recs[k]);
                            assert(next[k] == prev[k]);
                        } else {
                            assert(recs[k] == rec);
                            assert(next[k] == all[i as int]);
                        }
                    }
                }
            } else {
                proof {
                    assert(next == prev);
                }
            }
            i += 1;
        }
        proof {
            assert(all.take(lines@.len() as int) =~= all);
        }
        batch
    }

    /// Parses one log line with the clock at `now`: the syslog header gives the time
    /// (in the year of `now`), or `now` does.
    pub fn parse_line_at(&self, line: &str, resolver: &IdentityResolver, now: Timestamp) -> (r:
        Option<Record>)
        requires
            header_cut_ok(trim_text(line@)),
            now.valid(),
        ensures
            trim_text(line@).len() == 0 ==> r is None,
            trim_text(line@).len() > 0 ==> (r matches Some(rec) && is_auth_record(
                rec,
                resolver.rules(),
                trim_text(line@),
                now,
            )),
    {
        let trimmed = trim_str(line);
        if trimmed.is_empty() {
            return None;
        }
        let year = format_instant(now, "%Y");
        let ghost t = trimmed@;
        let (timestamp, rest) = match cut_header(trimmed) {
            Some((head, tail)) => match parse_timestamp_in_year(head, year.as_str()) {
                Some(ts) => (ts, tail),
                None => (now, trimmed),
            },
            None => (now, trimmed),
        };
        assert(timestamp == line_time(t, now));
        let rest_trimmed = trim_start_str(rest);
        assert(rest_trimmed@ == line_body(t, now));
        let (header, message) = match split_once_str(rest_trimmed, ":") {
            Some((h, m)) => (h, trim_str(m)),
            None => (rest_trimmed, trim_str(rest_trimmed)),
        };
        assert(header@ == line_header(t, now));
        assert(message@ == line_message(t, now));
        let header_parts = words_str(header);
        let host_name = if header_parts.len() > 0 {
            header_parts[0]
        } else {
            "localhost"
        };
        let process = if header_parts.len() > 1 {
            header_parts[1]
        } else {
            "auth"
        };
        let host_attributes = string_object1("process", owned(process));
        let host_entity = resolver.resolve_entity(host_name, "host", host_attributes, timestamp);
        let host_id = host_entity.id;
        let ghost m = message@;
        match classify_auth_message(message) {
            AuthAction::SshLogin => {
                let user = login_user_exec(message);
                let ip = message_ip_exec(message);
                let user_entity = resolver.resolve_entity(
                    user.as_str(),
                    "user",
                    empty_object(),
                    timestamp,
                );
                let ip_entity = resolver.resolve_entity(
                    ip.as_str(),
                    "ip_address",
                    empty_object(),
                    timestamp,
                );
                let user_id = user_entity.id;
                let edge1 = Edge::new(user_id, host_id, "logged_into", timestamp);
                let edge2 = Edge::new(user_id, ip_entity.id, "connected_from", timestamp);
                let context = string_object4(
                    "action",
                    owned("ssh_login_success"),
                    "ip",
                    ip,
                    "raw_message",
                    owned(message),
                    "user",
                    user,
                );
                let event = Event::new(
                    "ssh_login_success",
                    timestamp,
                    user_id,
                    Some(host_id),
                    context,
                );
                Some((vec![host_entity, user_entity, ip_entity], event, vec![edge1, edge2]))
            },
            AuthAction::AuthFailure => {
                let user = if contains_str(message, "for invalid user ") {
                    match extract_between(message, "for invalid user ", " from") {
                        Some(u) => u,
                        None => owned("invalid"),
                    }
                } else {
                    login_user_exec(message)
                };
                let ip = message_ip_exec(message);
                let user_entity = resolver.resolve_entity(
                    user.as_str(),
                    "user",
                    empty_object(),
                    timestamp,
                );
                let ip_entity = resolver.resolve_entity(
                    ip.as_str(),
                    "ip_address",
                    empty_object(),
                    timestamp,
                );
                let user_id = user_entity.id;
                let edge = Edge::new(user_id, ip_entity.id, "failed_login_from", timestamp);
                let context = string_object4(
                    "action",
                    owned("auth_failed"),
                    "ip",
                    ip,
                    "raw_message",
                    owned(message),
                    "user",
                    user,
                );
                let event = Event::new("auth_failed", timestamp, user_id, Some(host_id), context);
                Some((vec![host_entity, user_entity, ip_entity], event, vec![edge]))
            },
            AuthAction::SudoExec => {
                let user = match split_once_str(message, ":") {
                    Some((u, _)) => trim_str(u),
                    None => trim_str(message),
                };
                let target_user = match extract_between(message, "USER=", " ;") {
                    Some(u) => u,
                    None => owned("root"),
                };
                let command = match extract_after(message, "COMMAND=") {
                    Some(c) => c,
                    None => String::new(),
                };
                let user_entity = resolver.resolve_entity(user, "user", empty_object(), timestamp);
                let target_entity = resolver.resolve_entity(
                    target_user.as_str(),
                    "user",
                    empty_object(),
                    timestamp,
                );
                let user_id = user_entity.id;
                let target_id = target_entity.id;
                let edge = Edge::new(user_id, target_id, "escalated_to", timestamp);
                let context = string_object4(
                    "action",
                    owned("sudo_exec"),
                    "command",
                    command,
                    "raw_message",
                    owned(message),
                    "target_user",
                    target_user,
                );
                let event = Event::new("sudo_exec", timestamp, user_id, Some(target_id), context);
                Some((vec![host_entity, user_entity, target_entity], event, vec![edge]))
            },
            AuthAction::Other => {
                let context = string_object3(
                    "action",
                    owned("syslog_auth_event"),
                    "process",
                    owned(process),
                    "raw_message",
                    owned(message),
                );
                let event = Event::new("syslog_auth_event", timestamp, host_id, None, context);
                Some((vec![host_entity], event, Vec::new()))
            },
        }
    }
}

/// How a line's wording decides its record. With `m` the message of the line
/// (after the syslog header and the first colon):
/// - "Accepted password" or "Accepted publickey" gives an `ssh_login_success`
///   event with the host, the user and the address as entities, and the edges
///   `logged_into` (user to host) and `connected_from` (user to address);
/// - otherwise "Failed password" or "authentication failure" gives an
///   `auth_failed` event with the host, the failed user and the address as
///   entities, and one `failed_login_from` edge from the user to the address;
/// - otherwise "sudo:" or "COMMAND=" gives a `sudo_exec` event with the host,
///   the user and the target user, and one `escalated_to` edge between them;
/// - any other message gives a `syslog_auth_event` of the host alone, without edges.
pub proof fn law_auth_message_wording_decides_record(
    rec: Record,
    rules: IdentityConfig,
    t: Seq<char>,
    now: Timestamp,
)
    requires
        is_auth_record(rec, rules, t, now),
    ensures
        ({
            let m = line_message(t, now);
            let accepted = contains_text(m, "Accepted password"@) || contains_text(
                m,
                "Accepted publickey"@,
            );
            let failed = contains_text(m, "Failed password"@) || contains_text(
                m,
                "authentication failure"@,
            );
            let sudo = contains_text(m, "sudo:"@) || contains_text(m, "COMMAND="@);
            let ents = rec.0@;
            let ev = rec.1;
            let edges = rec.2@;
            &&& ents.len() >= 1
            &&& ents[0].entity_type@ == resolved_type(rules, line_host(t, now), "host"@)
            &&& accepted ==> {
                &&& ev.event_type@ == "ssh_login_success"@
                &&& ents.len() == 3
                &&& edges.len() == 2
                &&& ents[2].entity_type@ == resolved_type(rules, message_ip(m), "ip_address"@)
                &&& edges[0].rel_type@ == "logged_into"@
                &&& edges[0].source_id == ents[1].id
                &&& edges[0].target_id == ents[0].id
                &&& edges[1].rel_type@ == "connected_from"@
                &&& edges[1].source_id == ents[1].id
                &&& edges[1].target_id == ents[2].id
                &&& ev.source_id == ents[1].id
                &&& ev.target_id == Some(ents[0].id)
            }
            &&& (!accepted && failed) ==> {
                &&& ev.event_type@ == "auth_failed"@
                &&& ents.len() == 3
                &&& edges.len() == 1
                &&& ents[1].canonical_name@ == resolved_name(rules, failed_user(m))
                &&& ents[2].canonical_name@ == resolved_name(rules, message_ip(m))
                &&& ents[2].entity_type@ == resolved_type(rules, message_ip(m), "ip_address"@)
                &&& edges[0].rel_type@ == "failed_login_from"@
                &&& edges[0].source_id == ents[1].id
                &&& edges[0].target_id == ents[2].id
                &&& ev.source_id == ents[1].id
                &&& ev.target_id == Some(ents[0].id)
            }
            &&& (!accepted && !failed && sudo) ==> {
                &&& ev.event_type@ == "sudo_exec"@
                &&& ents.len() == 3
                &&& edges.len() == 1
                &&& edges[0].rel_type@ == "escalated_to"@
                &&& edges[0].source_id == ents[1].id
                &&& edges[0].target_id == ents[2].id
                &&& ev.source_id == ents[1].id
                &&& ev.target_id == Some(ents[2].id)
            }
            &&& (!accepted && !failed && !sudo) ==> {
                &&& ev.event_type@ == "syslog_auth_event"@
                &&& ents.len() == 1
                &&& edges.len() == 0
                &&& ev.source_id == ents[0].id
                &&& ev.target_id is None
            }
        }),
{
}

/// Who and where a login names. For a login or a failed login, the address is the
/// first word after the first "from " (or `0.0.0.0`); the user of a login is the
/// text between the first "for " and the next " from", trimmed; the user of a
/// failed login of an invalid user is the text between "for invalid user " and
/// the next " from", trimmed.
pub proof fn law_auth_login_names_user_and_address(
    rec: Record,
    rules: IdentityConfig,
    t: Seq<char>,
    now: Timestamp,
    user: Seq<char>,
    a: Seq<char>,
    rest: Seq<char>,
    b: Seq<char>,
)
    requires
        is_auth_record(rec, rules, t, now),
        contains_text(line_message(t, now), "Accepted password"@) || contains_text(
            line_message(t, now),
            "Accepted publickey"@,
        ) || contains_text(line_message(t, now), "Failed password"@) || contains_text(
            line_message(t, now),
            "authentication failure"@,
        ),
    ensures
        ({
            let m = line_message(t, now);
            let accepted = contains_text(m, "Accepted password"@) || contains_text(m, "Accepted publickey"@);
            let ents = rec.0@;
            &&& ents.len() == 3
            &&& split_once_text(m, "from "@) == Some((a, rest)) && words_text(trim_text(rest)).len() > 0
                ==> ents[2].canonical_name@ == resolved_name(rules, words_text(trim_text(rest))[0])
            &&& split_once_text(m, "from "@) is None ==> ents[2].canonical_name@ == resolved_name(
                rules,
                "0.0.0.0"@,
            )
            &&& (accepted || !contains_text(m, "for invalid user "@)) && split_once_text(m, "for "@)
                == Some((a, rest)) && split_once_text(rest, " from"@) == Some((user, b))
                ==> ents[1].canonical_name@ == resolved_name(rules, trim_text(user))
            &&& !accepted && split_once_text(m, "for invalid user "@) == Some((a, rest))
                && split_once_text(rest, " from"@) == Some((user, b)) ==> ents[1].canonical_name@
                == resolved_name(rules, trim_text(user))
        }),
{
    let m = line_message(t, now);
    let accepted = contains_text(m, "Accepted password"@) || contains_text(m, "Accepted publickey"@);
    if split_once_text(m, "from "@) == Some((a, rest)) {
        assert(extract_after_text(m, "from "@) == Some(trim_text(rest)));
    }
    if (accepted || !contains_text(m, "for invalid user "@)) && split_once_text(m, "for "@) == Some((a, rest))
        && split_once_text(rest, " from"@) == Some((user, b)) {
        assert(extract_between_text(m, "for "@, " from"@) == Some(trim_text(user)));
        assert(login_user(m) == trim_text(user));
    }
    if !accepted && split_once_text(m, "for invalid user "@) == Some((a, rest))
        && split_once_text(rest, " from"@) == Some((user, b)) {
        assert(contains_text(m, "for invalid user "@));
        assert(extract_between_text(m, "for invalid user "@, " from"@) == Some(trim_text(user)));
        assert(failed_user(m) == trim_text(user));
    }
}

/// Who a sudo line names: the user is the text before the first colon, trimmed
/// (the whole message when it has none); the target user is the text between
/// the first "USER=" and the next " ;", trimmed, or `root` when the line names none.
pub proof fn law_sudo_names_user_and_target(
    rec: Record,
    rules: IdentityConfig,
    t: Seq<char>,
    now: Timestamp,
    a: Seq<char>,
    rest: Seq<char>,
    target: Seq<char>,
    b: Seq<char>,
)
    requires
        is_auth_record(rec, rules, t, now),
        auth_action(line_message(t, now)) == AuthAction::SudoExec,
    ensures
        ({
            let m = line_message(t, now);
            let ents = rec.0@;
            &&& ents.len() == 3
            &&& split_once_text(m, ":"@) == Some((a, rest)) ==> ents[1].canonical_name@ == resolved_name(
                rules,
                trim_text(a),
            )
            &&& split_once_text(m, ":"@) is None ==> ents[1].canonical_name@ == resolved_name(rules, trim_text(m))
            &&& split_once_text(m, "USER="@) == Some((a, rest)) && split_once_text(rest, " ;"@) == Some(
                (target, b),
            ) ==> ents[2].canonical_name@ == resolved_name(rules, trim_text(target))
            &&& split_once_text(m, "USER="@) is None ==> ents[2].canonical_name@ == resolved_name(rules, "root"@)
        }),
{
    let m = line_message(t, now);
    if split_once_text(m, "USER="@) == Some((a, rest)) && split_once_text(rest, " ;"@) == Some((target, b)) {
        assert(extract_between_text(m, "USER="@, " ;"@) == Some(trim_text(target)));
    }
}

/// Replaying a line gives the same graph: two records of the same trimmed line,
/// read under the same rules with the clock at the same instant, have the same
/// entities (same identifiers, names and types), the same edges, and events
/// that differ at most in their random identifier.
pub proof fn law_auth_replay_is_deterministic(
    r1: Record,
    r2: Record,
    rules: IdentityConfig,
    t: Seq<char>,
    now: Timestamp,
)
    requires
        is_auth_record(r1, rules, t, now),
        is_auth_record(r2, rules, t, now),
    ensures
        same_graph(r1, r2),
{
    let m = line_message(t, now);
    match auth_action(m) {
        AuthAction::SshLogin => {
            assert(r1.0@.len() == 3);
        },
        AuthAction::AuthFailure => {
            assert(r1.0@.len() == 3);
        },
        AuthAction::SudoExec => {
            assert(r1.0@.len() == 3);
        },
        AuthAction::Other => {
            assert(r1.0@.len() == 1);
        },
    }
}

} // verus!
