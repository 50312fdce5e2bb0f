//! The words of the replication protocol, as bytes.

use vstd::prelude::*;

verus! {

/// The command that presents a password. Its text is `AUTH`.
pub open spec fn auth() -> Seq<u8> {
    seq![65u8, 85u8, 84u8, 72u8]
}

/// The bytes of `AUTH`.
pub fn auth_bytes() -> (r: Vec<u8>)
    ensures
        r@ == auth(),
{
    let r: Vec<u8> = vec![65u8, 85u8, 84u8, 72u8];
    assert(r@ =~= auth());
    r
}

/// The command that configures a replica's link. Its text is `REPLCONF`.
pub open spec fn replconf() -> Seq<u8> {
    seq![82u8, 69u8, 80u8, 76u8, 67u8, 79u8, 78u8, 70u8]
}

/// The bytes of `REPLCONF`.
pub fn replconf_bytes() -> (r: Vec<u8>)
    ensures
        r@ == replconf(),
{
    let r: Vec<u8> = vec![82u8, 69u8, 80u8, 76u8, 67u8, 79u8, 78u8, 70u8];
    assert(r@ =~= replconf());
    r
}

/// The option of `REPLCONF` that announces the replica's port. Its text is `listening-port`.
pub open spec fn listening_port() -> Seq<u8> {
    seq![108u8, 105u8, 115u8, 116u8, 101u8, 110u8, 105u8, 110u8, 103u8, 45u8, 112u8, 111u8, 114u8, 116u8]
}

/// The bytes of `listening-port`.
pub fn listening_port_bytes() -> (r: Vec<u8>)
    ensures
        r@ == listening_port(),
{
    let r: Vec<u8> = vec![108u8, 105u8, 115u8, 116u8, 101u8, 110u8, 105u8, 110u8, 103u8, 45u8, 112u8, 111u8, 114u8, 116u8];
    assert(r@ =~= listening_port());
    r
}

/// The option of `REPLCONF` that acknowledges an offset. Its text is `ACK`.
pub open spec fn ack() -> Seq<u8> {
    seq![65u8, 67u8, 75u8]
}

/// The bytes of `ACK`.
pub fn ack_bytes() -> (r: Vec<u8>)
    ensures
        r@ == ack(),
{
    let r: Vec<u8> = vec![65u8, 67u8, 75u8];
    assert(r@ =~= ack());
    r
}

/// The command that asks for a resynchronisation from an offset. Its text is `PSYNC`.
pub open spec fn psync() -> Seq<u8> {
    seq![80u8, 83u8, 89u8, 78u8, 67u8]
}

/// The bytes of `PSYNC`.
pub fn psync_bytes() -> (r: Vec<u8>)
    ensures
        r@ == psync(),
{
    let r: Vec<u8> = vec![80u8, 83u8, 89u8, 78u8, 67u8];
    assert(r@ =~= psync());
    r
}

/// The command that asks for a full copy. Its text is `SYNC`.
pub open spec fn sync() -> Seq<u8> {
    seq![83u8, 89u8, 78u8, 67u8]
}

/// The bytes of `SYNC`.
pub fn sync_bytes() -> (r: Vec<u8>)
    ensures
        r@ == sync(),
{
    let r: Vec<u8> = vec![83u8, 89u8, 78u8, 67u8];
    assert(r@ =~= sync());
    r
}

/// The reply to a command that was accepted. Its text is `OK`.
pub open spec fn ok() -> Seq<u8> {
    seq![79u8, 75u8]
}

/// The bytes of `OK`.
pub fn ok_bytes() -> (r: Vec<u8>)
    ensures
        r@ == ok(),
{
    let r: Vec<u8> = vec![79u8, 75u8];
    assert(r@ =~= ok());
    r
}

/// The start of the reply that announces a full copy. Its text is `FULLRESYNC`.
pub open spec fn full_resync() -> Seq<u8> {
    seq![70u8, 85u8, 76u8, 76u8, 82u8, 69u8, 83u8, 89u8, 78u8, 67u8]
}

/// The bytes of `FULLRESYNC`.
pub fn full_resync_bytes() -> (r: Vec<u8>)
    ensures
        r@ == full_resync(),
{
    let r: Vec<u8> = vec![70u8, 85u8, 76u8, 76u8, 82u8, 69u8, 83u8, 89u8, 78u8, 67u8];
    assert(r@ =~= full_resync());
    r
}

/// The start of the reply that accepts the offset. Its text is `CONTINUE`.
pub open spec fn resume() -> Seq<u8> {
    seq![67u8, 79u8, 78u8, 84u8, 73u8, 78u8, 85u8, 69u8]
}

/// The bytes of `CONTINUE`.
pub fn resume_bytes() -> (r: Vec<u8>)
    ensures
        r@ == resume(),
{
    let r: Vec<u8> = vec![67u8, 79u8, 78u8, 84u8, 73u8, 78u8, 85u8, 69u8];
    assert(r@ =~= resume());
    r
}

/// The start of the reply of a server that has lost its own master. Its text is `NOMASTERLINK`.
pub open spec fn no_master_link() -> Seq<u8> {
    seq![78u8, 79u8, 77u8, 65u8, 83u8, 84u8, 69u8, 82u8, 76u8, 73u8, 78u8, 75u8]
}

/// The bytes of `NOMASTERLINK`.
pub fn no_master_link_bytes() -> (r: Vec<u8>)
    ensures
        r@ == no_master_link(),
{
    let r: Vec<u8> = vec![78u8, 79u8, 77u8, 65u8, 83u8, 84u8, 69u8, 82u8, 76u8, 73u8, 78u8, 75u8];
    assert(r@ =~= no_master_link());
    r
}

/// The start of the reply of a server that is still loading its data. Its text is `LOADING`.
pub open spec fn loading() -> Seq<u8> {
    seq![76u8, 79u8, 65u8, 68u8, 73u8, 78u8, 71u8]
}

/// The bytes of `LOADING`.
pub fn loading_bytes() -> (r: Vec<u8>)
    ensures
        r@ == loading(),
{
    let r: Vec<u8> = vec![76u8, 79u8, 65u8, 68u8, 73u8, 78u8, 71u8];
    assert(r@ =~= loading());
    r
}

/// The error of a server that does not know `PSYNC`. Its text is `ERR unknown command 'PSYNC'`.
pub open spec fn psync_unknown() -> Seq<u8> {
    seq![69u8, 82u8, 82u8, 32u8, 117u8, 110u8, 107u8, 110u8, 111u8, 119u8, 110u8, 32u8, 99u8, 111u8, 109u8, 109u8, 97u8, 110u8, 100u8, 32u8, 39u8, 80u8, 83u8, 89u8, 78u8, 67u8, 39u8]
}

/// The bytes of `ERR unknown command 'PSYNC'`.
pub fn psync_unknown_bytes() -> (r: Vec<u8>)
    ensures
        r@ == psync_unknown(),
{
    let r: Vec<u8> = vec![69u8, 82u8, 82u8, 32u8, 117u8, 110u8, 107u8, 110u8, 111u8, 119u8, 110u8, 32u8, 99u8, 111u8, 109u8, 109u8, 97u8, 110u8, 100u8, 32u8, 39u8, 80u8, 83u8, 89u8, 78u8, 67u8, 39u8];
    assert(r@ =~= psync_unknown());
    r
}

/// The replication id of a replica that has none yet. Its text is `?`.
pub open spec fn unknown_id() -> Seq<u8> {
    seq![63u8]
}

/// The bytes of `?`.
pub fn unknown_id_bytes() -> (r: Vec<u8>)
    ensures
        r@ == unknown_id(),
{
    let r: Vec<u8> = vec![63u8];
    assert(r@ =~= unknown_id());
    r
}

} // verus!
