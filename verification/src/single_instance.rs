//! Which role a process takes among the running app instances, and the
//! wide-string form of the names it uses to find the others.
//!
//! The first instance binds the URI pipe and owns the single-instance
//! mutex; later ones find the mutex taken and hand their URIs over. The
//! system calls are made by the caller; the decisions between them are here.

use vstd::prelude::*;

use crate::text::{owned, push_all};

verus! {

/// The UTF-16 code units of `c`: one unit below U+10000, else a surrogate
/// pair.
pub open spec fn utf16_units(c: char) -> Seq<u16> {
    let u = c as u32;
    if u < 0x10000 {
        seq![u as u16]
    } else {
        let v = (u - 0x10000) as u32;
        seq![(0xD800 + v / 0x400) as u16, (0xDC00 + v % 0x400) as u16]
    }
}

/// The UTF-16 encoding of `s`.
pub open spec fn utf16(s: Seq<char>) -> Seq<u16>
    decreases s.len(),
{
    if s.len() == 0 {
        Seq::empty()
    } else {
        utf16(s.drop_last()) + utf16_units(s.last())
    }
}

/// `value` as UTF-16 followed by a terminating zero, as the wide-string
/// system calls take names.
pub fn to_nul_terminated_utf16(value: &str) -> (r: Vec<u16>)
    ensures
        r@ == utf16(value@).push(0u16),
{
    let chars = crate::text::chars_of(value);
    let mut out: Vec<u16> = Vec::new();
    let mut i: usize = 0;
    assert(value@.take(0) =~= Seq::<char>::empty());
    while i < chars.len()
        invariant
            i <= chars.len(),
            chars@ == value@,
            out@ == utf16(value@.take(i as int)),
        decreases chars.len() - i,
    {
        let c = chars[i];
        let u = c as u32;
        proof {
            assert(value@.take(i + 1).drop_last() =~= value@.take(i as int));
            assert(value@.take(i + 1).last() == c);
            vstd::utf8::char_is_scalar(c);
        }
        if u < 0x10000 {
            out.push(u as u16);
        } else {
            let v = u - 0x10000;
            out.push((0xD800 + v / 0x400) as u16);
            out.push((0xDC00 + v % 0x400) as u16);
        }
        assert(out@ =~= utf16(value@.take(i + 1)));
        i = i + 1;
    }
    assert(value@.take(chars.len() as int) =~= value@);
    out.push(0);
    out
}

/// The role a process claims among the running instances.
#[derive(Debug, Clone, Copy, PartialEq, Eq, Structural)]
pub enum InstanceRoleKind {
    /// This process is the first: it owns the mutex and listens on the pipe.
    Sole,
    /// Another instance is running and receives this one's URIs.
    Secondary,
    /// Neither: the pipe could not be bound and no other instance holds the
    /// mutex, so URIs cannot be handed over.
    Undiscoverable,
}

/// The role when binding the URI pipe failed: another instance holds it
/// when the mutex exists, else the process is undiscoverable.
pub fn role_after_failed_bind(mutex_exists: bool) -> (r: InstanceRoleKind)
    ensures
        r == if mutex_exists {
            InstanceRoleKind::Secondary
        } else {
            InstanceRoleKind::Undiscoverable
        },
{
    if mutex_exists {
        InstanceRoleKind::Secondary
    } else {
        InstanceRoleKind::Undiscoverable
    }
}

/// The role once the pipe is bound, from the attempt to take the mutex:
/// taken means sole, already held elsewhere means secondary.
pub fn role_after_mutex(acquired: bool) -> (r: InstanceRoleKind)
    ensures
        r == if acquired {
            InstanceRoleKind::Sole
        } else {
            InstanceRoleKind::Secondary
        },
{
    if acquired {
        InstanceRoleKind::Sole
    } else {
        InstanceRoleKind::Secondary
    }
}

/// Whether another instance is already running: only a secondary sees one.
pub fn has_existing_instance(role: InstanceRoleKind) -> (r: bool)
    ensures
        r == (role == InstanceRoleKind::Secondary),
{
    match role {
        InstanceRoleKind::Secondary => true,
        _ => false,
    }
}

/// Only the sole instance listens for forwarded URIs.
pub fn listens_for_uris(role: InstanceRoleKind) -> (r: bool)
    ensures
        r == (role == InstanceRoleKind::Sole),
{
    match role {
        InstanceRoleKind::Sole => true,
        _ => false,
    }
}


/// The URI pipe's name for a release channel (as the channel's debug name
/// reads, such as `Stable`).
pub fn uri_named_pipe_name(channel: &str) -> (r: String)
    ensures
        r@ == "Warp"@ + channel@ + "_URI_CHANNEL"@,
{
    let mut r = owned("Warp");
    push_all(&mut r, channel);
    push_all(&mut r, "_URI_CHANNEL");
    r
}

/// The single-instance mutex's name for a release channel, in the user
/// session's namespace.
pub fn single_instance_mutex_name(channel: &str) -> (r: String)
    ensures
        r@ == "Local\\Warp"@ + channel@ + "_SingleInstance"@,
{
    let mut r = owned("Local\\Warp");
    push_all(&mut r, channel);
    push_all(&mut r, "_SingleInstance");
    r
}

} // verus!
