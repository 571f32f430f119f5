//! The dispatcher and the record handler: for each notification record, in
//! order, validate its fields, apply the anti-loop filter, fetch the source
//! object, decode, scale, encode, and write the thumbnail back under the
//! derived key. The first fatal condition halts the whole batch.

use crate::config::SizeSpec;
use crate::errors::PipelineError;
use crate::keys::contains_char;
use crate::keys::thumb_key;
use crate::keys::thumb_key_spec;
use crate::raster::resize_image;
use crate::raster::resize_outcome;
use crate::store::Store;
use crate::store::StoredObject;
use crate::store::lookup;
use vstd::prelude::*;

verus! {

/// One entry of a bucket-notification batch, as the inbound payload carries
/// it: each field may be absent, and absence is fatal for the invocation.
pub struct EventRecord {
    pub region: Option<String>,
    pub bucket: Option<String>,
    pub key: Option<String>,
}

/// A validated reference to the source object of one record.
#[derive(Debug)]
pub struct ObjectRef {
    pub region: String,
    pub bucket: String,
    pub key: String,
}

pub open spec fn rec_region(r: EventRecord) -> Seq<char> {
    match r.region {
        Some(s) => s@,
        None => Seq::empty(),
    }
}

pub open spec fn rec_bucket(r: EventRecord) -> Seq<char> {
    match r.bucket {
        Some(s) => s@,
        None => Seq::empty(),
    }
}

pub open spec fn rec_key(r: EventRecord) -> Seq<char> {
    match r.key {
        Some(s) => s@,
        None => Seq::empty(),
    }
}

/// All mandatory fields are present.
pub open spec fn complete(r: EventRecord) -> bool {
    r.region is Some && r.bucket is Some && r.key is Some
}

/// The anti-loop filter skips this record: its key carries a hyphen, the
/// marker of the pipeline's own output. An original upload whose name happens
/// to contain a hyphen is likewise never thumbnailed.
pub open spec fn skipped(r: EventRecord) -> bool {
    complete(r) && rec_key(r).contains('-')
}

/// This record is processed: complete, and not caught by the filter.
pub open spec fn eligible(r: EventRecord) -> bool {
    complete(r) && !rec_key(r).contains('-')
}

/// Validates one record and applies the anti-loop filter: a missing field is
/// fatal, a hyphen in the key is a silent skip, anything else yields the
/// reference to process.
pub fn plan_record(record: &EventRecord) -> (r: Result<Option<ObjectRef>, PipelineError>)
    ensures
        !complete(*record) ==> (r matches Err(e) && e == PipelineError::MissingField),
        skipped(*record) ==> r matches Ok(None),
        eligible(*record) ==> (r matches Ok(Some(o)) && o.region@ == rec_region(*record)
            && o.bucket@ == rec_bucket(*record) && o.key@ == rec_key(*record)),
{
    let region = match &record.region {
        Some(s) => s,
        None => {
            return Err(PipelineError::MissingField);
        },
    };
    let bucket = match &record.bucket {
        Some(s) => s,
        None => {
            return Err(PipelineError::MissingField);
        },
    };
    let key = match &record.key {
        Some(s) => s,
        None => {
            return Err(PipelineError::MissingField);
        },
    };
    if contains_char(key.as_str(), '-') {
        return Ok(None);
    }
    Ok(Some(ObjectRef { region: region.clone(), bucket: bucket.clone(), key: key.clone() }))
}

/// Whether `o` is the thumbnail the pipeline writes for record `r`: same
/// bucket, the derived key, and the content type the pipeline declares.
/// (The declared type is `image/jpeg` although the bytes are PNG; the
/// mismatch is preserved deliberately.)
pub open spec fn is_thumb_for(o: StoredObject, r: EventRecord) -> bool {
    &&& o.bucket@ == rec_bucket(r)
    &&& o.key@ == thumb_key_spec(rec_key(r))
    &&& o.content_type@ == "image/jpeg"@
}

/// Everything one record does to the store, and what it returns. `pre` and
/// `post` are the store's objects before and after; `tw` the configured
/// target width.
pub open spec fn record_effect(
    rec: EventRecord,
    pre: Seq<StoredObject>,
    post: Seq<StoredObject>,
    tw: u32,
    r: Result<(), PipelineError>,
) -> bool {
    if !complete(rec) {
        post == pre && (r matches Err(e) && e == PipelineError::MissingField)
    } else if skipped(rec) {
        post == pre && r is Ok
    } else {
        match lookup(pre, rec_bucket(rec), rec_key(rec)) {
            None => post == pre && (r matches Err(e) && e == PipelineError::FetchFailed),
            Some(bytes) => match resize_outcome(bytes, tw) {
                Err(e0) => post == pre && (r matches Err(e) && e == e0),
                Ok(png) => r is Ok && post.len() == pre.len() + 1 && post.drop_last() == pre
                    && is_thumb_for(post.last(), rec) && post.last().body@ == png,
            },
        }
    }
}

/// Processes one record against the store: validate, filter, fetch, decode,
/// scale, encode, derive the destination key, upload. Succeeds exactly when
/// the record is skipped, or its object exists, decodes and re-encodes; the
/// store then grows by exactly that one thumbnail, whose body is the encoded
/// resize of the fetched bytes.
pub fn handle_record(config: &SizeSpec, record: &EventRecord, store: &mut Store) -> (r: Result<
    (),
    PipelineError,
>)
    requires
        config.wf(),
    ensures
        record_effect(*record, old(store).objects@, final(store).objects@, config.target_width, r),
{
    let obj = match plan_record(record) {
        Err(e) => {
            return Err(e);
        },
        Ok(None) => {
            return Ok(());
        },
        Ok(Some(o)) => o,
    };
    let data = match store.get(obj.bucket.as_str(), obj.key.as_str()) {
        None => {
            return Err(PipelineError::FetchFailed);
        },
        Some(d) => d,
    };
    let buffer = match resize_image(data.as_slice(), config) {
        Ok(b) => b,
        Err(e) => {
            return Err(e);
        },
    };
    let target = thumb_key(obj.key.as_str());
    let content_type = "image/jpeg".to_owned();
    let ghost pre = store.objects@;
    let _code = store.put(obj.bucket, target, buffer, content_type);
    proof {
        assert(store.objects@.drop_last() =~= pre);
    }
    Ok(())
}

/// The anti-loop invariant: a derived thumbnail key always carries a hyphen,
/// so a record bearing one — in particular, a notification for the pipeline's
/// own output — is skipped, never processed again.
pub proof fn lemma_own_output_is_skipped(source: Seq<char>, r: EventRecord)
    ensures
        thumb_key_spec(source).contains('-'),
        complete(r) && rec_key(r) == thumb_key_spec(source) ==> skipped(r) && !eligible(r),
{
    reveal_strlit("-thumb.png");
    let key = thumb_key_spec(source);
    let p = crate::keys::prefix_before(source, '.').len() as int;
    crate::keys::lemma_prefix_len_props(source, '.');
    assert(key[p] == '-');
    assert(key.contains('-')) by {
        assert(0 <= p < key.len() && key[p] == '-');
    }
}

/// Everything a whole batch does to the store, and what it returns: the
/// records' effects in the batch's original order, halting at the first
/// record whose effect is an error and leaving the remaining records
/// untouched; `Ok` exactly when every record is skipped or completes.
pub open spec fn batch_effect(
    recs: Seq<EventRecord>,
    pre: Seq<StoredObject>,
    post: Seq<StoredObject>,
    tw: u32,
    r: Result<(), PipelineError>,
) -> bool
    decreases recs.len(),
{
    if recs.len() == 0 {
        post == pre && r is Ok
    } else if !complete(recs.first()) {
        post == pre && (r matches Err(e) && e == PipelineError::MissingField)
    } else if skipped(recs.first()) {
        batch_effect(recs.drop_first(), pre, post, tw, r)
    } else {
        match lookup(pre, rec_bucket(recs.first()), rec_key(recs.first())) {
            None => post == pre && (r matches Err(e) && e == PipelineError::FetchFailed),
            Some(bytes) => match resize_outcome(bytes, tw) {
                Err(e0) => post == pre && (r matches Err(e) && e == e0),
                Ok(png) => exists|o: StoredObject|
                    #[trigger] is_thumb_for(o, recs.first()) && o.body@ == png && batch_effect(
                        recs.drop_first(),
                        pre.push(o),
                        post,
                        tw,
                        r,
                    ),
            },
        }
    }
}

/// Appending one more record's effect to a batch that succeeded so far.
proof fn lemma_batch_push(
    recs: Seq<EventRecord>,
    pre: Seq<StoredObject>,
    mid: Seq<StoredObject>,
    tw: u32,
    rec: EventRecord,
    post: Seq<StoredObject>,
    r: Result<(), PipelineError>,
)
    requires
        batch_effect(recs, pre, mid, tw, Ok(())),
        record_effect(rec, mid, post, tw, r),
    ensures
        batch_effect(recs.push(rec), pre, post, tw, r),
    decreases recs.len(),
{
    reveal_with_fuel(batch_effect, 3);
    if recs.len() == 0 {
        assert(recs.push(rec).first() == rec);
        assert(recs.push(rec).drop_first() =~= recs);
        if complete(rec) && !skipped(rec) {
            match lookup(pre, rec_bucket(rec), rec_key(rec)) {
                Some(bytes) => match resize_outcome(bytes, tw) {
                    Ok(png) => {
                        let o = post.last();
                        assert(post =~= pre.push(o));
                        assert(is_thumb_for(o, rec) && o.body@ == png && batch_effect(
                            recs,
                            pre.push(o),
                            post,
                            tw,
                            r,
                        ));
                    },
                    Err(_) => {},
                },
                None => {},
            }
        }
    } else {
        assert(recs.push(rec).first() == recs.first());
        assert(recs.push(rec).drop_first() =~= recs.drop_first().push(rec));
        let first = recs.first();
        if !complete(first) {
            // batch_effect(recs, pre, mid, Ok) demands an error here
            assert(false);
        } else if skipped(first) {
            lemma_batch_push(recs.drop_first(), pre, mid, tw, rec, post, r);
        } else {
            match lookup(pre, rec_bucket(first), rec_key(first)) {
                None => {
                    assert(false);
                },
                Some(bytes) => match resize_outcome(bytes, tw) {
                    Err(_) => {
                        assert(false);
                    },
                    Ok(png) => {
                        let o = choose|o: StoredObject|
                            #[trigger] is_thumb_for(o, first) && o.body@ == png && batch_effect(
                                recs.drop_first(),
                                pre.push(o),
                                mid,
                                tw,
                                Ok(()),
                            );
                        lemma_batch_push(recs.drop_first(), pre.push(o), mid, tw, rec, post, r);
                        assert(is_thumb_for(o, first) && o.body@ == png && batch_effect(
                            recs.drop_first().push(rec),
                            pre.push(o),
                            post,
                            tw,
                            r,
                        ));
                    },
                },
            }
        }
    }
}

/// A batch that halted on an error is unaffected by the records behind it.
proof fn lemma_batch_err_extend(
    recs: Seq<EventRecord>,
    more: Seq<EventRecord>,
    pre: Seq<StoredObject>,
    post: Seq<StoredObject>,
    tw: u32,
    r: Result<(), PipelineError>,
)
    requires
        batch_effect(recs, pre, post, tw, r),
        r is Err,
    ensures
        batch_effect(recs + more, pre, post, tw, r),
    decreases recs.len(),
{
    reveal_with_fuel(batch_effect, 2);
    if recs.len() == 0 {
        assert(false);
    } else {
        assert((recs + more).len() > 0);
        assert((recs + more).first() == recs.first());
        assert((recs + more).drop_first() =~= recs.drop_first() + more);
        let first = recs.first();
        if !complete(first) {
        } else if skipped(first) {
            lemma_batch_err_extend(recs.drop_first(), more, pre, post, tw, r);
        } else {
            match lookup(pre, rec_bucket(first), rec_key(first)) {
                None => {},
                Some(bytes) => match resize_outcome(bytes, tw) {
                    Err(_) => {},
                    Ok(png) => {
                        let o = choose|o: StoredObject|
                            #[trigger] is_thumb_for(o, first) && o.body@ == png && batch_effect(
                                recs.drop_first(),
                                pre.push(o),
                                post,
                                tw,
                                r,
                            );
                        lemma_batch_err_extend(recs.drop_first(), more, pre.push(o), post, tw, r);
                        assert(is_thumb_for(o, first) && o.body@ == png && batch_effect(
                            recs.drop_first() + more,
                            pre.push(o),
                            post,
                            tw,
                            r,
                        ));
                    },
                },
            }
        }
    }
}

/// Dispatches one batch: every record, in the batch's original order, is
/// handed to the record handler; the first fatal condition halts the batch.
/// The store only ever grows; the result and the store's growth are exactly
/// `batch_effect` — in particular, success is returned if and only if every
/// record was skipped or completed, and a fetch failure on the first record
/// aborts before any later record leaves a trace.
#[verifier::loop_isolation(false)]
pub fn dispatch(config: &SizeSpec, records: &Vec<EventRecord>, store: &mut Store) -> (r: Result<
    (),
    PipelineError,
>)
    requires
        config.wf(),
    ensures
        final(store).objects@.len() >= old(store).objects@.len(),
        final(store).objects@.subrange(0, old(store).objects@.len() as int) == old(store).objects@,
        batch_effect(
            records@,
            old(store).objects@,
            final(store).objects@,
            config.target_width,
            r,
        ),
        (records@.len() >= 1 && eligible(records@[0]) && lookup(
            old(store).objects@,
            rec_bucket(records@[0]),
            rec_key(records@[0]),
        ) is None) ==> ((r matches Err(e) && e == PipelineError::FetchFailed)
            && final(store).objects@ == old(store).objects@),
{
    let ghost old_len = store.objects@.len() as int;
    let n = records.len();
    let mut i: usize = 0;
    assert(records@.take(0) =~= Seq::<EventRecord>::empty());
    while i < n
        invariant
            0 <= i <= n,
            store.objects@.len() >= old_len,
            store.objects@.subrange(0, old_len) == old(store).objects@,
            batch_effect(
                records@.take(i as int),
                old(store).objects@,
                store.objects@,
                config.target_width,
                Ok(()),
            ),
            i >= 1 && eligible(records@[0]) ==> lookup(
                old(store).objects@,
                rec_bucket(records@[0]),
                rec_key(records@[0]),
            ) is Some,
        decreases n - i,
    {
        let record = &records[i];
        let ghost pre = store.objects@;
        match handle_record(config, record, store) {
            Ok(_) => {
                proof {
                    assert(records@.take(i + 1) =~= records@.take(i as int).push(
                        records@[i as int],
                    ));
                    lemma_batch_push(
                        records@.take(i as int),
                        old(store).objects@,
                        pre,
                        config.target_width,
                        records@[i as int],
                        store.objects@,
                        Ok(()),
                    );
                    if store.objects@.len() == pre.len() + 1 {
                        assert(store.objects@ =~= pre.push(store.objects@.last()));
                        assert(store.objects@.subrange(0, old_len) =~= pre.subrange(0, old_len));
                    }
                    if i == 0 && eligible(records@[0]) {
                        // batch_effect over an empty prefix pins pre to the entry store,
                        // and a fetch failure would have produced an error.
                        assert(pre == old(store).objects@);
                        if lookup(pre, rec_bucket(records@[0]), rec_key(records@[0])) is None {
                            assert(false);
                        }
                    }
                }
            },
            Err(e) => {
                proof {
                    assert(records@.take(i + 1) =~= records@.take(i as int).push(
                        records@[i as int],
                    ));
                    lemma_batch_push(
                        records@.take(i as int),
                        old(store).objects@,
                        pre,
                        config.target_width,
                        records@[i as int],
                        store.objects@,
                        Err(e),
                    );
                    assert(records@.take(i + 1) + records@.skip(i + 1) =~= records@);
                    lemma_batch_err_extend(
                        records@.take(i + 1),
                        records@.skip(i + 1),
                        old(store).objects@,
                        store.objects@,
                        config.target_width,
                        Err(e),
                    );
                    if records@.len() >= 1 && eligible(records@[0]) && lookup(
                        old(store).objects@,
                        rec_bucket(records@[0]),
                        rec_key(records@[0]),
                    ) is None {
                        assert(i == 0);
                        assert(pre == old(store).objects@);
                        assert(store.objects@ == old(store).objects@);
                    }
                }
                return Err(e);
            },
        }
        i = i + 1;
    }
    assert(records@.take(n as int) =~= records@);
    Ok(())
}

} // verus!
