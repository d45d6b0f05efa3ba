//! Signature scanning of a firmware image with binwalk.
use vstd::prelude::*;

verus! {

/// binwalk's record of one signature found in the data.
#[verifier::external_type_specification]
#[verifier::external_body]
pub struct ExSignatureResult(binwalk::signatures::common::SignatureResult);

/// One signature found in the image: where it starts, how many bytes it
/// covers, binwalk's name and description for it, and binwalk's own record,
/// which extraction takes back.
pub struct SignatureHit {
    pub offset: usize,
    pub size: usize,
    pub name: String,
    pub description: String,
    pub result: binwalk::signatures::common::SignatureResult,
}

/// The hits come in order of their offsets.
pub open spec fn hits_in_offset_order(hits: Seq<SignatureHit>) -> bool {
    forall|i: int, j: int|
        #![trigger hits[i], hits[j]]
        0 <= i <= j < hits.len() ==> hits[i].offset <= hits[j].offset
}

/// `Binwalk::new()` followed by `Binwalk::scan` on the data; each
/// `SignatureResult` is kept, with its offset, size, name and description
/// copied out. binwalk sorts its results (offset is the first field of the
/// derived order) and afterwards only removes entries and adjusts sizes, so
/// the hits come in offset order. Which signatures are found is not stated:
/// each result carries a random id, so the outcome gets no name. Nor is it
/// stated that each hit lies inside the data: binwalk's pass that drops
/// overlapping results can, after removing an earlier entry, test one entry
/// and remove its neighbour.
#[verifier::external_body]
fn binwalk_scan(data: &[u8]) -> (r: Vec<SignatureHit>)
    ensures
        hits_in_offset_order(r@),
{
    let found = binwalk::Binwalk::new().scan(data);
    found.into_iter().map(
        |s| SignatureHit {
            offset: s.offset,
            size: s.size,
            name: s.name.clone(),
            description: s.description.clone(),
            result: s,
        },
    ).collect()
}

/// What a scan reports: `None` when there are no hits, otherwise all of
/// them, in the order given.
pub fn findings_outcome(hits: Vec<SignatureHit>) -> (r: Option<Vec<SignatureHit>>)
    ensures
        r is None <==> hits@.len() == 0,
        r matches Some(h) ==> h@ == hits@,
{
    if hits.len() == 0 {
        None
    } else {
        Some(hits)
    }
}

/// Scans the image for known signatures: `None` when binwalk finds none,
/// otherwise every hit binwalk reports, in offset order.
pub fn scan(firmware: &[u8]) -> (r: Option<Vec<SignatureHit>>)
    ensures
        match r {
            None => true,
            Some(hits) => hits@.len() > 0 && hits_in_offset_order(hits@),
        },
{
    let hits = binwalk_scan(firmware);
    findings_outcome(hits)
}

} // verus!
