//! Restrict execution privileges.

use crate::packet;
use crate::packet::{bits_i16, read16};
use crate::peer::spec_named;
use vstd::prelude::*;

verus! {

/// The call that restricts the scope.
pub const CALL_RESTRICT: u8 = 0;

/// The scope strings as they stand in the call, one after the other.
pub open spec fn spec_scope(scope: Seq<Vec<u8>>) -> Seq<u8>
    decreases scope.len(),
{
    if scope.len() == 0 {
        Seq::empty()
    } else {
        spec_scope(scope.drop_last()) + spec_named(scope.last()@)
    }
}

/// The content of a restrict call: the call's number, the number of scope
/// strings, and the strings.
pub open spec fn spec_restrict_request(scope: Seq<Vec<u8>>) -> Seq<u8> {
    seq![CALL_RESTRICT, scope.len() as u8] + spec_scope(scope)
}

/// Builds the content of a restrict call.
pub fn restrict_request(scope: &Vec<Vec<u8>>) -> (r: Vec<u8>)
    requires
        scope@.len() <= 255,
        forall|i: int| 0 <= i < scope@.len() ==> (#[trigger] scope@[i])@.len() <= 255,
    ensures
        r@ == spec_restrict_request(scope@),
{
    let mut buf: Vec<u8> = Vec::new();
    buf.push(CALL_RESTRICT);
    buf.push(scope.len() as u8);
    let mut i: usize = 0;
    assert(scope@.take(0) =~= Seq::<Vec<u8>>::empty());
    assert(buf@ =~= seq![CALL_RESTRICT, scope@.len() as u8] + spec_scope(scope@.take(0)));
    while i < scope.len()
        invariant
            i <= scope@.len(),
            scope@.len() <= 255,
            forall|k: int| 0 <= k < scope@.len() ==> (#[trigger] scope@[k])@.len() <= 255,
            buf@ == seq![CALL_RESTRICT, scope@.len() as u8] + spec_scope(scope@.take(i as int)),
        decreases scope@.len() - i,
    {
        let b = scope[i].as_slice();
        buf.push(b.len() as u8);
        buf.extend_from_slice(b);
        proof {
            let next = scope@.take(i + 1);
            assert(next.drop_last() =~= scope@.take(i as int));
            assert(next.last() == scope@[i as int]);
            assert(buf@ =~= seq![CALL_RESTRICT, scope@.len() as u8] + spec_scope(next));
        }
        i += 1;
    }
    assert(scope@.take(i as int) =~= scope@);
    buf
}

/// Why a restrict call failed.
#[derive(Clone, Copy, Debug, PartialEq, Eq, Structural)]
pub enum RestrictError {
    /// The scope service does not know the call.
    UnknownCall,
    /// The scope service reports an error.
    Unexpected(i16),
}

/// What the reply to a restrict call says.
pub open spec fn spec_restrict_reply(reply: Seq<u8>) -> Result<(), RestrictError> {
    if reply.len() < 2 {
        Err(RestrictError::UnknownCall)
    } else if bits_i16(read16(reply, 0)) != 0 {
        Err(RestrictError::Unexpected(bits_i16(read16(reply, 0))))
    } else {
        Ok(())
    }
}

/// Reads the reply to a restrict call.
pub fn restrict_reply(reply: &[u8]) -> (r: Result<(), RestrictError>)
    ensures
        r == spec_restrict_reply(reply@),
{
    if reply.len() < 2 {
        return Err(RestrictError::UnknownCall);
    }
    let error: i16 = packet::read_i16(reply, 0);
    if error != 0 {
        return Err(RestrictError::Unexpected(error));
    }
    Ok(())
}

} // verus!
