//! What operators give for invites, and what they are shown of them, in lines of
//! fields with tabs between.

use crate::auth::alpha_invite;
use crate::auth::alpha_invite::AlphaInviteAdminRecord;
use crate::auth::alpha_invite::CreatedAlphaInvite;
use crate::calendar;
use crate::calendar::UtcTime;
use crate::ids;
use crate::text;
use vstd::prelude::*;

verus! {

/// The point of time that the parts of a timestamp give, if there are any.
pub open spec fn timestamp_read(parts: Option<(i64, u32)>) -> Option<int> {
    match parts {
        Some(p) => calendar::point_after(p),
        None => None,
    }
}

/// The point of time that the parts of a timestamp give, or a complaint.
pub fn timestamp_from(parts: Option<(i64, u32)>) -> (r: Result<UtcTime, String>)
    ensures
        match timestamp_read(parts) {
            Some(t) => r is Ok && r->Ok_0@ == t,
            None => r is Err && r->Err_0@
                == "expected an RFC 3339 timestamp such as 2026-12-31T23:59:59Z"@,
        },
{
    if let Some((secs, nanos)) = parts {
        if let Some(t) = UtcTime::after(secs, nanos) {
            return Ok(t);
        }
    }
    Err("expected an RFC 3339 timestamp such as 2026-12-31T23:59:59Z".to_owned())
}

/// The point of time that an argument gives in RFC 3339 notation.
pub fn parse_rfc3339(value: &str) -> (r: Result<UtcTime, String>)
    ensures
        match timestamp_read(calendar::rfc3339_parsed(value@)) {
            Some(t) => r is Ok && r->Ok_0@ == t,
            None => r is Err && r->Err_0@
                == "expected an RFC 3339 timestamp such as 2026-12-31T23:59:59Z"@,
        },
{
    timestamp_from(calendar::parse_from_rfc3339(value))
}

/// A character that cannot break a line: itself, or a space for a control
/// character.
pub open spec fn tame(c: char) -> char {
    if text::control(c) {
        ' '
    } else {
        c
    }
}

/// A label as it is shown.
pub open spec fn label_text(label: Option<Seq<char>>) -> Seq<char> {
    (match label {
        Some(l) => l,
        None => "(unlabeled)"@,
    }).map_values(|c: char| tame(c))
}

/// The text of a label, if there is one.
pub open spec fn label_of(label: Option<&str>) -> Option<Seq<char>> {
    match label {
        Some(l) => Some(l@),
        None => None,
    }
}

/// The label of an invite, if it has one.
pub open spec fn stored_label(label: Option<String>) -> Option<Seq<char>> {
    match label {
        Some(l) => Some(l@),
        None => None,
    }
}

/// A label as it is shown: without control characters.
pub fn display_label(label: Option<&str>) -> (s: String)
    ensures
        s@ == label_text(label_of(label)),
{
    let cs = text::chars_of(
        match label {
            Some(l) => l,
            None => "(unlabeled)",
        },
    );
    let mut s = String::new();
    let ghost shown = cs@.map_values(|c: char| tame(c));
    let mut i: usize = 0;
    assert(s@ =~= shown.take(0));
    while i < cs.len()
        invariant
            i <= cs@.len(),
            shown == cs@.map_values(|c: char| tame(c)),
            s@ == shown.take(i as int),
        decreases cs@.len() - i,
    {
        if text::is_control(cs[i]) {
            s.push(' ');
        } else {
            s.push(cs[i]);
        }
        i = i + 1;
        assert(s@ =~= shown.take(i as int));
    }
    assert(s@ =~= shown);
    s
}

fn display_stored_label(label: &Option<String>) -> (s: String)
    ensures
        s@ == label_text(stored_label(*label)),
{
    match label {
        Some(l) => display_label(Some(l.as_str())),
        None => display_label(None),
    }
}

/// A point of time as it is shown.
pub open spec fn time_text(timestamp: Option<UtcTime>) -> Seq<char> {
    match timestamp {
        Some(t) => calendar::rfc3339_text(t@),
        None => "-"@,
    }
}

/// A point of time as it is shown; a hyphen where there is none.
pub fn display_timestamp(timestamp: Option<UtcTime>) -> (s: String)
    ensures
        s@ == time_text(timestamp),
{
    match timestamp {
        Some(t) => t.rfc3339(),
        None => "-".to_owned(),
    }
}

/// What is shown of an invite that was just made. This is the only place where
/// the code is shown.
pub open spec fn created_text(created: CreatedAlphaInvite) -> Seq<char> {
    "invite_id\t"@ + ids::uuid_text(created.invite.invite_id.value) + "\nlabel\t"@ + label_text(
        stored_label(created.invite.label),
    ) + "\ninvite_code\t"@ + created.raw_code.0@ + "\nexpires_at\t"@ + time_text(
        created.invite.expires_at,
    ) + "\nmax_redemptions\t"@ + text::signed_decimal(created.invite.max_redemptions as int)
        + "\n"@
}

/// What is shown of an invite that was just made.
pub fn write_created_invite(created: &CreatedAlphaInvite) -> (s: String)
    ensures
        s@ == created_text(*created),
{
    let mut s = "invite_id\t".to_owned();
    s.append(created.invite.invite_id.text().as_str());
    s.append("\nlabel\t");
    s.append(display_stored_label(&created.invite.label).as_str());
    s.append("\ninvite_code\t");
    s.append(created.raw_code.inner().as_str());
    s.append("\nexpires_at\t");
    s.append(display_timestamp(created.invite.expires_at).as_str());
    s.append("\nmax_redemptions\t");
    s.append(text::signed_decimal_string(created.invite.max_redemptions).as_str());
    s.append("\n");
    s
}

/// The line of an invite in the list.
pub open spec fn invite_line(invite: AlphaInviteAdminRecord, now: UtcTime) -> Seq<char> {
    ids::uuid_text(invite.invite_id.value) + "\t"@ + label_text(stored_label(invite.label)) + "\t"@
        + alpha_invite::status(
        invite.expires_at,
        invite.disabled_at,
        invite.max_redemptions,
        invite.redemption_count,
        now,
    ).name() + "\t"@ + calendar::rfc3339_text(invite.created_at@) + "\t"@ + time_text(
        invite.expires_at,
    ) + "\t"@ + time_text(invite.disabled_at) + "\t"@ + text::signed_decimal(
        invite.redemption_count as int,
    ) + "\t"@ + text::signed_decimal(invite.max_redemptions as int) + "\t"@ + text::signed_decimal(
        invite.remaining() as int,
    ) + "\n"@
}

/// The names of the columns.
pub const LIST_HEADER: &'static str = "invite_id\tlabel\tstatus\tcreated_at\texpires_at\tdisabled_at\tredemptions\tmax_redemptions\tremaining\n";

/// The list of invites: the names of the columns, then a line for each.
pub open spec fn list_text(invites: Seq<AlphaInviteAdminRecord>, now: UtcTime) -> Seq<char>
    decreases invites.len(),
{
    if invites.len() == 0 {
        LIST_HEADER@
    } else {
        list_text(invites.drop_last(), now) + invite_line(invites.last(), now)
    }
}

fn line_of(invite: &AlphaInviteAdminRecord, now: UtcTime) -> (s: String)
    ensures
        s@ == invite_line(*invite, now),
{
    let mut s = invite.invite_id.text();
    s.append("\t");
    s.append(display_stored_label(&invite.label).as_str());
    s.append("\t");
    s.append(invite.status_at(now).as_str());
    s.append("\t");
    s.append(invite.created_at.rfc3339().as_str());
    s.append("\t");
    s.append(display_timestamp(invite.expires_at).as_str());
    s.append("\t");
    s.append(display_timestamp(invite.disabled_at).as_str());
    s.append("\t");
    s.append(text::signed_decimal_string(invite.redemption_count).as_str());
    s.append("\t");
    s.append(text::signed_decimal_string(invite.max_redemptions).as_str());
    s.append("\t");
    s.append(text::signed_decimal_string(invite.remaining_redemptions()).as_str());
    s.append("\n");
    s
}

/// The list of invites, without their codes and hashes.
pub fn write_invite_list(invites: &[AlphaInviteAdminRecord], now: UtcTime) -> (s: String)
    ensures
        s@ == list_text(invites@, now),
{
    let mut s = LIST_HEADER.to_owned();
    let mut i: usize = 0;
    while i < invites.len()
        invariant
            i <= invites@.len(),
            s@ == list_text(invites@.take(i as int), now),
        decreases invites@.len() - i,
    {
        assert(invites@.take(i as int + 1).drop_last() =~= invites@.take(i as int));
        s.append(line_of(&invites[i], now).as_str());
        i = i + 1;
    }
    assert(invites@.take(i as int) =~= invites@);
    s
}

/// What is shown of an invite that was disabled.
pub open spec fn disabled_text(invite: AlphaInviteAdminRecord, now: UtcTime) -> Seq<char> {
    "invite_id\t"@ + ids::uuid_text(invite.invite_id.value) + "\nstatus\t"@ + alpha_invite::status(
        invite.expires_at,
        invite.disabled_at,
        invite.max_redemptions,
        invite.redemption_count,
        now,
    ).name() + "\ndisabled_at\t"@ + time_text(invite.disabled_at) + "\n"@
}

/// What is shown of an invite that was disabled.
pub fn write_disabled_invite(invite: &AlphaInviteAdminRecord, now: UtcTime) -> (s: String)
    ensures
        s@ == disabled_text(*invite, now),
{
    let mut s = "invite_id\t".to_owned();
    s.append(invite.invite_id.text().as_str());
    s.append("\nstatus\t");
    s.append(invite.status_at(now).as_str());
    s.append("\ndisabled_at\t");
    s.append(display_timestamp(invite.disabled_at).as_str());
    s.append("\n");
    s
}

/// No label can add a line or a field to what is shown.
pub proof fn law_labels_stay_in_their_field(label: Option<Seq<char>>)
    ensures
        forall|i: int|
            0 <= i < label_text(label).len() ==> !text::control(#[trigger] label_text(label)[i]),
{
}

/// What the maker of an invite is shown holds the code, and the id, the label and
/// the limits of that invite, each behind its own name.
pub proof fn law_the_maker_sees_the_code(created: &CreatedAlphaInvite, s: String)
    requires
        call_ensures(write_created_invite, (created,), s),
    ensures
        s@ == "invite_id\t"@ + ids::uuid_text(created.invite.invite_id.value) + "\nlabel\t"@
            + label_text(stored_label(created.invite.label)) + "\ninvite_code\t"@
            + created.raw_code.0@ + "\nexpires_at\t"@ + time_text(created.invite.expires_at)
            + "\nmax_redemptions\t"@ + text::signed_decimal(created.invite.max_redemptions as int)
            + "\n"@,
{
}

/// A label is shown with as many characters as it has, each its own but for the
/// control characters, which become spaces; an invite without one is called so.
pub proof fn law_labels_are_shown_as_they_are(label: Option<&str>, s: String, i: int)
    requires
        call_ensures(display_label, (label,), s),
        0 <= i < s@.len(),
        label is Some,
    ensures
        s@.len() == label->0@.len(),
        text::control(label->0@[i]) ==> s@[i] == ' ',
        !text::control(label->0@[i]) ==> s@[i] == label->0@[i],
{
}

/// A point of time is shown in RFC 3339 notation, and a hyphen where there is none.
pub proof fn law_times_are_shown(timestamp: Option<UtcTime>, s: String)
    requires
        call_ensures(display_timestamp, (timestamp,), s),
    ensures
        timestamp is Some ==> s@ == calendar::rfc3339_text(timestamp->0@),
        timestamp is None ==> s@ == "-"@,
{
}

/// The list of one invite more is the list before and one line more, which holds
/// the id, the counts and the times of that invite, each in its column.
pub proof fn law_every_invite_has_its_line(
    before: &[AlphaInviteAdminRecord],
    after: &[AlphaInviteAdminRecord],
    invite: AlphaInviteAdminRecord,
    now: UtcTime,
    list_before: String,
    list_after: String,
)
    requires
        call_ensures(write_invite_list, (before, now), list_before),
        call_ensures(write_invite_list, (after, now), list_after),
        after@ == before@.push(invite),
    ensures
        list_after@ == list_before@ + (ids::uuid_text(invite.invite_id.value) + "\t"@ + label_text(
            stored_label(invite.label),
        ) + "\t"@ + alpha_invite::status(
            invite.expires_at,
            invite.disabled_at,
            invite.max_redemptions,
            invite.redemption_count,
            now,
        ).name() + "\t"@ + calendar::rfc3339_text(invite.created_at@) + "\t"@ + time_text(
            invite.expires_at,
        ) + "\t"@ + time_text(invite.disabled_at) + "\t"@ + text::signed_decimal(
            invite.redemption_count as int,
        ) + "\t"@ + text::signed_decimal(invite.max_redemptions as int) + "\t"@
            + text::signed_decimal(invite.remaining() as int) + "\n"@),
        before@.len() == 0 ==> list_before@
            == "invite_id\tlabel\tstatus\tcreated_at\texpires_at\tdisabled_at\tredemptions\tmax_redemptions\tremaining\n"@,
{
    assert(after@.drop_last() =~= before@);
    assert(after@.last() == invite);
    assert(list_after@ == list_before@ + invite_line(invite, now));
}

/// What is shown of an invite that was disabled is its id, its status and when that
/// was; an invite without a label is called unlabeled.
pub proof fn law_disabled_invites_are_shown(
    invite: &AlphaInviteAdminRecord,
    now: UtcTime,
    s: String,
    status: alpha_invite::AlphaInviteStatus,
    name: &'static str,
    unlabeled: String,
)
    requires
        call_ensures(write_disabled_invite, (invite, now), s),
        call_ensures(AlphaInviteAdminRecord::status_at, (invite, now), status),
        call_ensures(alpha_invite::AlphaInviteStatus::as_str, (status,), name),
        call_ensures(display_label, (None,), unlabeled),
    ensures
        s@ == "invite_id\t"@ + ids::uuid_text(invite.invite_id.value) + "\nstatus\t"@ + name@
            + "\ndisabled_at\t"@ + time_text(invite.disabled_at) + "\n"@,
        invite.disabled_at is Some ==> name@ == "disabled"@,
        unlabeled@ == "(unlabeled)"@,
{
    reveal_strlit("(unlabeled)");
    assert(unlabeled@ =~= "(unlabeled)"@);
}

/// A timestamp is the point that its parts give; a text that is none is refused.
pub proof fn law_timestamps_are_read(value: &str, r: Result<UtcTime, String>)
    requires
        call_ensures(parse_rfc3339, (value,), r),
    ensures
        calendar::rfc3339_parsed(value@) is None ==> r is Err && r->Err_0@
            == "expected an RFC 3339 timestamp such as 2026-12-31T23:59:59Z"@,
        r is Ok ==> calendar::rfc3339_parsed(value@) is Some && r->Ok_0@ == (
        calendar::rfc3339_parsed(value@)->0).0 * 1_000_000_000 + (calendar::rfc3339_parsed(
            value@,
        )->0).1,
{
}

} // verus!
