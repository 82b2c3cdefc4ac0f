use vstd::prelude::*;

use crate::encode::MessageEncode;

verus! {

/// Values tagged as commitment data. Their codec resolves only in a
/// registry where the commitment capability is enabled.
pub trait RgbData: MessageEncode {
}

} // verus!
