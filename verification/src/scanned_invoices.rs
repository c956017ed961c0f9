//! Invoices read by a scanning service: the queue of files to upload and how
//! its uploads go, the request each file is sent with (its content in
//! base64), the table's columns, the review dialog's moves between invoices,
//! and the page's endpoints and messages.

use vstd::prelude::*;
pub use crate::text::opt_view;
use crate::text::{owned, concat, str_eq, text_or, byte_prefix, encode_utf8_of};
use crate::numtext::{int_text, int_to_string, nat_text, count_to_string, padded_text,
    padded_to_string};

verus! {

/// The fields of a scanned invoice that the page's logic reads (the amounts
/// and the confidence, floats, stay with the caller).
#[derive(Debug, Clone, Default)]
pub struct ScannedInvoiceRow {
    pub id: i64,
    pub direction: String,
    pub status: String,
    pub vendor_name: Option<String>,
    pub vendor_vat_number: Option<String>,
    pub customer_name: Option<String>,
    pub customer_vat_number: Option<String>,
    pub invoice_number: Option<String>,
    pub invoice_date: Option<String>,
    pub vies_status: Option<String>,
    pub requires_manual_review: Option<bool>,
    pub counterpart_id: Option<i64>,
    pub counterpart_name: Option<String>,
    pub journal_entry_id: Option<i64>,
    pub vat_period: Option<String>,
    pub has_inventory: Option<bool>,
    pub created_at: Option<String>,
    pub original_file_name: Option<String>,
}

// ---------------------------------------------------------------------------
// Base64
// ---------------------------------------------------------------------------

/// The character of a base64 digit in the standard alphabet.
pub open spec fn base64_digit(v: int) -> char {
    if v < 26 {
        (('A' as int) + v) as char
    } else if v < 52 {
        (('a' as int) + v - 26) as char
    } else if v < 62 {
        (('0' as int) + v - 52) as char
    } else if v == 62 {
        '+'
    } else {
        '/'
    }
}

/// Standard base64 with padding (RFC 4648): every three bytes become four
/// digits of six bits each; a last one or two bytes become two or three
/// digits and `=` up to four.
pub open spec fn base64_of(d: Seq<u8>) -> Seq<char>
    decreases d.len(),
{
    if d.len() == 0 {
        Seq::empty()
    } else {
        let b0 = d[0] as int;
        let b1 = if d.len() > 1 { d[1] as int } else { 0 };
        let b2 = if d.len() > 2 { d[2] as int } else { 0 };
        let first = base64_digit(b0 / 4);
        let second = base64_digit((b0 % 4) * 16 + b1 / 16);
        if d.len() == 1 {
            seq![first, second, '=', '=']
        } else if d.len() == 2 {
            seq![first, second, base64_digit((b1 % 16) * 4), '=']
        } else {
            seq![first, second, base64_digit((b1 % 16) * 4 + b2 / 64), base64_digit(b2 % 64)] + base64_of(d.skip(3))
        }
    }
}

/// The length of the padded base64 of `n` bytes.
pub open spec fn base64_len(n: int) -> int {
    4 * ((n + 2) / 3)
}

/// Law: base64 is padded to whole groups of four characters, one group for
/// every three bytes or part of three.
pub proof fn lemma_base64_len(d: Seq<u8>)
    ensures
        base64_of(d).len() == base64_len(d.len() as int),
    decreases d.len(),
{
    if d.len() > 2 {
        lemma_base64_len(d.skip(3));
        assert((d.len() - 3 + 2) / 3 + 1 == (d.len() + 2) / 3);
    }
}

/// The characters of the standard base64 alphabet.
pub open spec fn is_base64_char(c: char) -> bool {
    ('A' <= c && c <= 'Z') || ('a' <= c && c <= 'z') || ('0' <= c && c <= '9') || c == '+' || c == '/'
}

/// The value of a base64 digit.
pub open spec fn base64_value(c: char) -> int {
    if 'A' <= c && c <= 'Z' {
        (c as int) - ('A' as int)
    } else if 'a' <= c && c <= 'z' {
        (c as int) - ('a' as int) + 26
    } else if '0' <= c && c <= '9' {
        (c as int) - ('0' as int) + 52
    } else if c == '+' {
        62
    } else {
        63
    }
}

/// Standard padded base64 read back: each group of four digits gives three
/// bytes, two when it ends in one `=`, one when it ends in two.
pub open spec fn from_base64(s: Seq<char>) -> Seq<u8>
    decreases s.len(),
{
    if s.len() < 4 {
        Seq::empty()
    } else {
        let v0 = base64_value(s[0]);
        let v1 = base64_value(s[1]);
        let v2 = base64_value(s[2]);
        let v3 = base64_value(s[3]);
        let b0 = (v0 * 4 + v1 / 16) as u8;
        let b1 = ((v1 % 16) * 16 + v2 / 4) as u8;
        let b2 = ((v2 % 4) * 64 + v3) as u8;
        let group = if s[2] == '=' { seq![b0] } else if s[3] == '=' { seq![b0, b1] } else { seq![b0, b1, b2] };
        group + from_base64(s.skip(4))
    }
}

proof fn lemma_base64_digit(v: int)
    requires
        0 <= v < 64,
    ensures
        is_base64_char(base64_digit(v)),
        base64_value(base64_digit(v)) == v,
{
}

proof fn lemma_base64_group(b0: int, b1: int, b2: int)
    requires
        0 <= b0 < 256,
        0 <= b1 < 256,
        0 <= b2 < 256,
    ensures
        0 <= b0 / 4 < 64,
        0 <= (b0 % 4) * 16 + b1 / 16 < 64,
        0 <= (b1 % 16) * 4 + b2 / 64 < 64,
        0 <= b2 % 64 < 64,
        (b0 / 4) * 4 + ((b0 % 4) * 16 + b1 / 16) / 16 == b0,
        (((b0 % 4) * 16 + b1 / 16) % 16) * 16 + ((b1 % 16) * 4 + b2 / 64) / 4 == b1,
        (((b1 % 16) * 4 + b2 / 64) % 4) * 64 + b2 % 64 == b2,
{
}

/// Law: base64 uses only the standard alphabet, padded with `=`, and reading
/// it back gives the bytes again.
pub proof fn lemma_base64_roundtrip(d: Seq<u8>)
    ensures
        forall|i: int| 0 <= i < base64_of(d).len() ==> is_base64_char(#[trigger] base64_of(d)[i]) || base64_of(d)[i] == '=',
        from_base64(base64_of(d)) == d,
    decreases d.len(),
{
    if d.len() > 0 {
        let b0 = d[0] as int;
        let b1 = if d.len() > 1 { d[1] as int } else { 0 };
        let b2 = if d.len() > 2 { d[2] as int } else { 0 };
        lemma_base64_group(b0, b1, b2);
        lemma_base64_digit(b0 / 4);
        lemma_base64_digit((b0 % 4) * 16 + b1 / 16);
        lemma_base64_digit((b1 % 16) * 4 + b2 / 64);
        lemma_base64_digit(b2 % 64);
        let e = base64_of(d);
        let rest = if d.len() > 2 { d.skip(3) } else { Seq::<u8>::empty() };
        if d.len() > 2 {
            lemma_base64_roundtrip(d.skip(3));
        }
        assert(e.skip(4) =~= base64_of(rest));
        assert forall|i: int| 0 <= i < e.len() implies is_base64_char(#[trigger] e[i]) || e[i] == '=' by {
            if i >= 4 {
                assert(e[i] == base64_of(rest)[i - 4]);
            }
        }
        if d.len() == 1 {
            assert(from_base64(e.skip(4)) =~= Seq::<u8>::empty());
            assert(from_base64(e) =~= d);
        } else if d.len() == 2 {
            assert(from_base64(e.skip(4)) =~= Seq::<u8>::empty());
            assert(from_base64(e) =~= d);
        } else {
            assert(from_base64(e) =~= seq![d[0], d[1], d[2]] + d.skip(3));
            assert(seq![d[0], d[1], d[2]] + d.skip(3) =~= d);
        }
    }
}

/// `base64::engine::general_purpose::STANDARD.encode(data)`: the standard
/// alphabet with `=` padding, as its documentation and RFC 4648 give it. It
/// panics when the encoded length does not fit in `usize`.
#[verifier::external_body]
fn base64_encode(data: &[u8]) -> (r: String)
    requires
        base64_len(data@.len() as int) <= usize::MAX,
    ensures
        r@ == base64_of(data@),
{
    base64::Engine::encode(&base64::engine::general_purpose::STANDARD, data)
}

// ---------------------------------------------------------------------------
// The upload queue
// ---------------------------------------------------------------------------

#[derive(Debug, Clone, Copy, PartialEq, Eq, Structural)]
pub enum UploadStatus {
    Pending,
    Uploading,
    Done,
    Error,
}

/// A file waiting to be, being or having been uploaded.
#[derive(Debug)]
pub struct UploadFile {
    pub name: String,
    pub content: Vec<u8>,
    pub status: UploadStatus,
    pub error: Option<String>,
}

/// The files chosen for upload, in the order they were added.
#[derive(Debug)]
pub struct UploadQueue {
    pub files: Vec<UploadFile>,
}

/// What a file is sent with to be scanned.
#[derive(Debug, Clone)]
pub struct ScanRequest {
    pub direction: String,
    pub vat_period: String,
    pub file_content: String,
    pub file_name: String,
}

/// What the server answered to a request that reports `success` and, where
/// it did not succeed, may give an `error`.
#[derive(Debug, Clone)]
pub enum ScanReply {
    Answered { success: bool, error: Option<String> },
    Failed(String),
}

/// How many of `files` have status `st`.
pub open spec fn count_status(files: Seq<UploadFile>, st: UploadStatus) -> nat
    decreases files.len(),
{
    if files.len() == 0 {
        0
    } else {
        count_status(files.drop_last(), st) + if files.last().status == st { 1nat } else { 0nat }
    }
}

/// Every file has been uploaded or has failed.
pub open spec fn all_finished(files: Seq<UploadFile>) -> bool {
    forall|i: int| 0 <= i < files.len() ==> (#[trigger] files[i]).status == UploadStatus::Done
        || files[i].status == UploadStatus::Error
}

/// Law: the uploaded and the failed files are never more than the files, and
/// they are as many exactly when every file has been uploaded or has failed
/// (which is when the queue reads as finished).
pub proof fn lemma_finished_counts(files: Seq<UploadFile>)
    ensures
        count_status(files, UploadStatus::Done) + count_status(files, UploadStatus::Error) <= files.len(),
        (count_status(files, UploadStatus::Done) + count_status(files, UploadStatus::Error) == files.len())
            == all_finished(files),
    decreases files.len(),
{
    if files.len() > 0 {
        let init = files.drop_last();
        lemma_finished_counts(init);
        if all_finished(files) {
            assert forall|i: int| 0 <= i < init.len() implies (#[trigger] init[i]).status == UploadStatus::Done
                || init[i].status == UploadStatus::Error by {
                assert(init[i] == files[i]);
            }
            assert(files[files.len() - 1] == files.last());
        }
        if all_finished(init) && (files.last().status == UploadStatus::Done || files.last().status == UploadStatus::Error) {
            assert forall|i: int| 0 <= i < files.len() implies (#[trigger] files[i]).status == UploadStatus::Done
                || files[i].status == UploadStatus::Error by {
                if i < files.len() - 1 {
                    assert(init[i] == files[i]);
                }
            }
        }
    }
}

/// The file with its status replaced.
pub open spec fn with_status(f: UploadFile, st: UploadStatus) -> UploadFile {
    UploadFile { status: st, ..f }
}

/// The status a file gets from the answer to its upload: uploaded when the
/// answer reports success, failed otherwise.
pub open spec fn reply_status(reply: ScanReply) -> UploadStatus {
    match reply {
        ScanReply::Answered { success, error } => if success { UploadStatus::Done } else { UploadStatus::Error },
        ScanReply::Failed(_) => UploadStatus::Error,
    }
}

/// The error a file keeps after the answer to its upload: unchanged on
/// success; else the answer's error (or a general one) or the failed
/// request's error.
pub open spec fn reply_error(before: Option<Seq<char>>, reply: ScanReply) -> Option<Seq<char>> {
    match reply {
        ScanReply::Answered { success, error } => if success {
            before
        } else {
            Some(match error {
                Some(e) => e@,
                None => "Грешка"@,
            })
        },
        ScanReply::Failed(e) => Some(e@),
    }
}

/// Whether file `index` (where there is one) is small enough for the length
/// of its base64 to fit in `usize`, which `begin` needs.
pub fn base64_len_fits(queue: &UploadQueue, index: usize) -> (r: bool)
    ensures
        r == (index < queue.files@.len() ==> base64_len(queue.files@[index as int].content@.len() as int) <= usize::MAX),
{
    if index >= queue.files.len() {
        return true;
    }
    let n = queue.files[index].content.len();
    let groups: usize = n / 3 + if n % 3 > 0 { 1 } else { 0 };
    assert(groups == (n + 2) / 3);
    groups <= usize::MAX / 4
}

impl UploadQueue {
    pub fn new() -> (q: UploadQueue)
        ensures
            q.files@.len() == 0,
    {
        UploadQueue { files: Vec::new() }
    }

    /// A file read for upload joins the end of the queue, waiting.
    pub fn add(&mut self, name: String, content: Vec<u8>)
        ensures
            final(self).files@ == old(self).files@.push(UploadFile { name, content, status: UploadStatus::Pending, error: None }),
    {
        self.files.push(UploadFile { name, content, status: UploadStatus::Pending, error: None });
    }

    pub fn clear(&mut self)
        ensures
            final(self).files@.len() == 0,
    {
        self.files = Vec::new();
    }

    pub fn len(&self) -> (n: usize)
        ensures
            n == self.files@.len(),
    {
        self.files.len()
    }

    fn count(&self, st: UploadStatus) -> (c: usize)
        ensures
            c == count_status(self.files@, st),
    {
        let mut c: usize = 0;
        let mut i: usize = 0;
        while i < self.files.len()
            invariant
                i <= self.files.len(),
                c == count_status(self.files@.take(i as int), st),
                c <= i,
            decreases self.files.len() - i,
        {
            assert(self.files@.take(i + 1).drop_last() =~= self.files@.take(i as int));
            if self.files[i].status == st {
                c = c + 1;
            }
            i = i + 1;
        }
        assert(self.files@.take(self.files.len() as int) =~= self.files@);
        c
    }

    pub fn done_count(&self) -> (c: usize)
        ensures
            c == count_status(self.files@, UploadStatus::Done),
    {
        self.count(UploadStatus::Done)
    }

    pub fn error_count(&self) -> (c: usize)
        ensures
            c == count_status(self.files@, UploadStatus::Error),
    {
        self.count(UploadStatus::Error)
    }

    /// Whether every file has been uploaded or has failed (counted as the
    /// page counts it: the uploaded and the failed add up to the files).
    pub fn all_done(&self) -> (r: bool)
        ensures
            r == all_finished(self.files@),
    {
        let d = self.done_count();
        let e = self.error_count();
        let n = self.files.len();
        proof {
            lemma_finished_counts(self.files@);
        }
        d + e == n
    }

    /// File `index` starts uploading: it is marked as such and its request is
    /// made, with its content in base64. Nothing happens where there is no
    /// such file.
    pub fn begin(&mut self, index: usize, direction: &str, vat_period: &str) -> (r: Option<ScanRequest>)
        requires
            index < old(self).files@.len() ==> base64_len(old(self).files@[index as int].content@.len() as int) <= usize::MAX,
        ensures
            if index < old(self).files@.len() {
                let f = old(self).files@[index as int];
                &&& final(self).files@ == old(self).files@.update(index as int, with_status(f, UploadStatus::Uploading))
                &&& r matches Some(req) && req.direction@ == direction@ && req.vat_period@ == vat_period@
                    && req.file_content@ == base64_of(f.content@) && req.file_name@ == f.name@
            } else {
                final(self).files@ == old(self).files@ && r.is_none()
            },
    {
        if index >= self.files.len() {
            return None;
        }
        let mut f = self.files.remove(index);
        f.status = UploadStatus::Uploading;
        let req = ScanRequest {
            direction: owned(direction),
            vat_period: owned(vat_period),
            file_content: base64_encode(f.content.as_slice()),
            file_name: owned(f.name.as_str()),
        };
        self.files.insert(index, f);
        Some(req)
    }

    /// File `index` takes the outcome of its upload (see `reply_status` and
    /// `reply_error`). Nothing happens where there is no such file.
    pub fn record(&mut self, index: usize, reply: ScanReply)
        ensures
            final(self).files@.len() == old(self).files@.len(),
            forall|j: int| 0 <= j < old(self).files@.len() && j != index ==> final(self).files@[j] == old(self).files@[j],
            index < old(self).files@.len() ==> {
                let o = old(self).files@[index as int];
                let n = final(self).files@[index as int];
                &&& n.name == o.name && n.content == o.content
                &&& n.status == reply_status(reply)
                &&& opt_view(n.error) == reply_error(opt_view(o.error), reply)
            },
    {
        proof {
            reveal_strlit("Грешка");
        }
        if index >= self.files.len() {
            return;
        }
        let mut f = self.files.remove(index);
        match reply {
            ScanReply::Answered { success, error } => {
                if success {
                    f.status = UploadStatus::Done;
                } else {
                    f.status = UploadStatus::Error;
                    f.error = Some(match error {
                        Some(e) => e,
                        None => owned("Грешка"),
                    });
                }
            },
            ScanReply::Failed(e) => {
                f.status = UploadStatus::Error;
                f.error = Some(e);
            },
        }
        self.files.insert(index, f);
    }
}

// ---------------------------------------------------------------------------
// A run of uploads
// ---------------------------------------------------------------------------

/// A run of uploads over the files that were queued when it started: the
/// next file to send and how many there are.
#[derive(Debug, Clone, Copy)]
pub struct UploadRun {
    pub next: usize,
    pub total: usize,
}

/// How long a run waits before sending file `k`: nothing before the first,
/// 3 s before each of the others.
pub open spec fn wait_before(k: int) -> u32 {
    if k > 0 { 3000u32 } else { 0u32 }
}

/// The files a run still sends, in order, each with the wait before it, as
/// `next_file` and `advance` take it from step to step.
pub open spec fn remaining_steps(run: UploadRun) -> Seq<(usize, u32)>
    decreases run.total - run.next,
{
    if run.next < run.total {
        seq![(run.next, wait_before(run.next as int))] + remaining_steps(UploadRun { next: (run.next + 1) as usize, ..run })
    } else {
        Seq::empty()
    }
}

proof fn lemma_remaining_steps(run: UploadRun)
    ensures
        remaining_steps(run).len() == if run.next < run.total { run.total - run.next } else { 0 },
        forall|i: int| 0 <= i < remaining_steps(run).len() ==>
            #[trigger] remaining_steps(run)[i] == ((run.next + i) as usize, wait_before(run.next + i)),
    decreases run.total - run.next,
{
    if run.next < run.total {
        let after = UploadRun { next: (run.next + 1) as usize, ..run };
        lemma_remaining_steps(after);
        assert forall|i: int| 0 <= i < remaining_steps(run).len() implies
            #[trigger] remaining_steps(run)[i] == ((run.next + i) as usize, wait_before(run.next + i)) by {
            if i > 0 {
                assert(remaining_steps(run)[i] == remaining_steps(after)[i - 1]);
            }
        }
    }
}

/// Law: a run started on a queue of `n` files sends every file once, in the
/// order of the queue, waiting 3 s before each but the first.
pub proof fn lemma_upload_schedule(n: usize)
    ensures
        remaining_steps(UploadRun { next: 0, total: n }).len() == n,
        forall|k: int| 0 <= k < n ==> #[trigger] remaining_steps(UploadRun { next: 0, total: n })[k]
            == (k as usize, if k == 0 { 0u32 } else { 3000u32 }),
{
    lemma_remaining_steps(UploadRun { next: 0, total: n });
}

/// A run starts over the whole queue; there is none for an empty queue.
pub fn start_upload(queue: &UploadQueue) -> (r: Option<UploadRun>)
    ensures
        r == (if queue.files@.len() == 0 { None } else { Some(UploadRun { next: 0, total: queue.files@.len() as usize }) }),
{
    let n = queue.len();
    if n == 0 {
        None
    } else {
        Some(UploadRun { next: 0, total: n })
    }
}

impl UploadRun {
    /// The file to send next and how long to wait first (3 s between two
    /// uploads, to stay under the service's rate limit), or nothing when the
    /// run is over.
    pub fn next_file(&self) -> (r: Option<(usize, u32)>)
        ensures
            r == (if self.next < self.total { Some((self.next, if self.next > 0 { 3000u32 } else { 0u32 })) } else { None }),
            r == (if remaining_steps(*self).len() > 0 { Some(remaining_steps(*self)[0]) } else { None }),
    {
        proof {
            lemma_remaining_steps(*self);
        }
        if self.next < self.total {
            let wait: u32 = if self.next > 0 { 3000 } else { 0 };
            Some((self.next, wait))
        } else {
            None
        }
    }

    pub fn advance(&mut self)
        requires
            old(self).next < old(self).total,
        ensures
            final(self).next == old(self).next + 1,
            final(self).total == old(self).total,
            remaining_steps(*final(self)) == remaining_steps(*old(self)).drop_first(),
    {
        self.next = self.next + 1;
    }
}

/// The queue's heading: the progress while a run is under way, the tally
/// once every file has been uploaded or has failed, else how many files wait.
pub fn progress_text(queue: &UploadQueue, uploading: bool) -> (r: String)
    ensures
        r@ == ({
            let d = count_status(queue.files@, UploadStatus::Done);
            let e = count_status(queue.files@, UploadStatus::Error);
            if uploading {
                "Качване... "@ + nat_text(d + e) + "/"@ + nat_text(queue.files@.len())
            } else if all_finished(queue.files@) {
                "Готово: "@ + nat_text(d) + " успешни, "@ + nat_text(e) + " грешки"@
            } else {
                nat_text(queue.files@.len()) + " файла за качване"@
            }
        }),
{
    let d = queue.done_count();
    let e = queue.error_count();
    let n = queue.len();
    proof {
        lemma_finished_counts(queue.files@);
    }
    if uploading {
        let mut r = concat("Качване... ", count_to_string(d + e).as_str());
        r.append("/");
        r.append(count_to_string(n).as_str());
        r
    } else if queue.all_done() {
        let mut r = concat("Готово: ", count_to_string(d).as_str());
        r.append(" успешни, ");
        r.append(count_to_string(e).as_str());
        r.append(" грешки");
        r
    } else {
        concat(count_to_string(n).as_str(), " файла за качване")
    }
}

pub open spec fn status_icon_of(st: UploadStatus) -> Seq<char> {
    match st {
        UploadStatus::Pending => "⏳"@,
        UploadStatus::Uploading => "🔄"@,
        UploadStatus::Done => "✅"@,
        UploadStatus::Error => "❌"@,
    }
}

pub open spec fn status_background_of(st: UploadStatus) -> Seq<char> {
    match st {
        UploadStatus::Done => "#e8f5e9"@,
        UploadStatus::Error => "#ffebee"@,
        UploadStatus::Uploading => "#fff3e0"@,
        UploadStatus::Pending => "white"@,
    }
}

pub fn status_icon(st: UploadStatus) -> (r: &'static str)
    ensures
        r@ == status_icon_of(st),
{
    match st {
        UploadStatus::Pending => "⏳",
        UploadStatus::Uploading => "🔄",
        UploadStatus::Done => "✅",
        UploadStatus::Error => "❌",
    }
}

pub fn status_background(st: UploadStatus) -> (r: &'static str)
    ensures
        r@ == status_background_of(st),
{
    match st {
        UploadStatus::Done => "#e8f5e9",
        UploadStatus::Error => "#ffebee",
        UploadStatus::Uploading => "#fff3e0",
        UploadStatus::Pending => "white",
    }
}

// ---------------------------------------------------------------------------
// The table
// ---------------------------------------------------------------------------

pub open spec fn is_purchase(inv: ScannedInvoiceRow) -> bool {
    inv.direction@ == "purchase"@
}

pub open spec fn text_or_dash(o: Option<String>) -> Seq<char> {
    match o {
        Some(t) => t@,
        None => "-"@,
    }
}

/// The other party: the vendor of a purchase, the customer of a sale.
pub fn party_name(inv: &ScannedInvoiceRow) -> (r: String)
    ensures
        r@ == (if is_purchase(*inv) { text_or_dash(inv.vendor_name) } else { text_or_dash(inv.customer_name) }),
{
    if str_eq(inv.direction.as_str(), "purchase") {
        text_or(&inv.vendor_name, "-")
    } else {
        text_or(&inv.customer_name, "-")
    }
}

/// The other party's VAT number.
pub fn party_vat_number(inv: &ScannedInvoiceRow) -> (r: String)
    ensures
        r@ == (if is_purchase(*inv) { text_or_dash(inv.vendor_vat_number) } else { text_or_dash(inv.customer_vat_number) }),
{
    if str_eq(inv.direction.as_str(), "purchase") {
        text_or(&inv.vendor_vat_number, "-")
    } else {
        text_or(&inv.customer_vat_number, "-")
    }
}

/// A date as the table shows it: its first 10 bytes (`YYYY-MM-DD` of a
/// timestamp) when it has that many, else the whole of it. Cutting inside a
/// character would panic, so that input is left out.
pub open spec fn date_cut_ok(d: Seq<char>) -> bool {
    &&& encode_utf8_of(d).len() <= usize::MAX
    &&& encode_utf8_of(d).len() >= 10 ==> vstd::utf8::is_char_boundary(encode_utf8_of(d), 10)
}

pub fn short_date(d: &str) -> (r: String)
    requires
        date_cut_ok(d@),
    ensures
        encode_utf8_of(r@) == (if encode_utf8_of(d@).len() >= 10 { encode_utf8_of(d@).take(10) } else { encode_utf8_of(d@) }),
        encode_utf8_of(d@).len() < 10 ==> r@ == d@,
{
    match byte_prefix(d, 10) {
        Some(p) => p,
        None => owned(d),
    }
}

/// The table's date column: the short date, or `-` where there is none.
pub fn invoice_date_cell(inv: &ScannedInvoiceRow) -> (r: String)
    requires
        inv.invoice_date matches Some(d) ==> date_cut_ok(d@),
    ensures
        match inv.invoice_date {
            Some(d) => encode_utf8_of(r@) == (if encode_utf8_of(d@).len() >= 10 { encode_utf8_of(d@).take(10) } else { encode_utf8_of(d@) }),
            None => r@ == "-"@,
        },
{
    match &inv.invoice_date {
        Some(d) => short_date(d.as_str()),
        None => owned("-"),
    }
}

pub open spec fn invoice_status_style_of(status: Seq<char>) -> Seq<char> {
    if status == "pending"@ { "background: #f39c12; color: white;"@ }
    else if status == "validated"@ { "background: #3498db; color: white;"@ }
    else if status == "processed"@ { "background: #27ae60; color: white;"@ }
    else if status == "rejected"@ { "background: #e74c3c; color: white;"@ }
    else { "background: #95a5a6; color: white;"@ }
}

/// The label of a status; an unknown status is shown as it is.
pub open spec fn invoice_status_label_of(status: Seq<char>) -> Seq<char> {
    if status == "pending"@ { "Чакащ"@ }
    else if status == "validated"@ { "Валидиран"@ }
    else if status == "processed"@ { "Осчетоводен"@ }
    else if status == "rejected"@ { "Отхвърлен"@ }
    else { status }
}

pub fn invoice_status_style(status: &str) -> (r: &'static str)
    ensures
        r@ == invoice_status_style_of(status@),
{
    if str_eq(status, "pending") { "background: #f39c12; color: white;" }
    else if str_eq(status, "validated") { "background: #3498db; color: white;" }
    else if str_eq(status, "processed") { "background: #27ae60; color: white;" }
    else if str_eq(status, "rejected") { "background: #e74c3c; color: white;" }
    else { "background: #95a5a6; color: white;" }
}

pub fn invoice_status_label(status: &str) -> (r: String)
    ensures
        r@ == invoice_status_label_of(status@),
{
    if str_eq(status, "pending") { owned("Чакащ") }
    else if str_eq(status, "validated") { owned("Валидиран") }
    else if str_eq(status, "processed") { owned("Осчетоводен") }
    else if str_eq(status, "rejected") { owned("Отхвърлен") }
    else { owned(status) }
}

pub open spec fn processed(inv: ScannedInvoiceRow) -> bool {
    inv.status@ == "processed"@
}

pub fn is_processed(inv: &ScannedInvoiceRow) -> (r: bool)
    ensures
        r == processed(*inv),
{
    str_eq(inv.status.as_str(), "processed")
}

/// The link to an invoice's journal entry: `/journal-entries?edit={id}`.
pub fn journal_entry_href(id: i64) -> (r: String)
    ensures
        r@ == "/journal-entries?edit="@ + int_text(id as int),
{
    concat("/journal-entries?edit=", int_to_string(id).as_str())
}

/// The link's text, `#{id}`.
pub fn journal_entry_tag(id: i64) -> (r: String)
    ensures
        r@ == "#"@ + int_text(id as int),
{
    concat("#", int_to_string(id).as_str())
}

// ---------------------------------------------------------------------------
// The review dialog
// ---------------------------------------------------------------------------

/// Where the invoice with `id` stands in the list: its first position, or 0
/// where it is not in the list.
pub fn position_of(list: &Vec<ScannedInvoiceRow>, id: i64) -> (r: usize)
    ensures
        (r < list.len() && list@[r as int].id == id && forall|j: int| 0 <= j < r ==> (#[trigger] list@[j]).id != id)
        || (r == 0 && forall|j: int| 0 <= j < list.len() ==> (#[trigger] list@[j]).id != id),
{
    let mut i: usize = 0;
    while i < list.len()
        invariant
            i <= list.len(),
            forall|j: int| 0 <= j < i ==> (#[trigger] list@[j]).id != id,
        decreases list.len() - i,
    {
        if list[i].id == id {
            return i;
        }
        i = i + 1;
    }
    0
}

/// The position the "previous" button moves to.
pub open spec fn previous_position(idx: int, len: int) -> int {
    if idx > 0 && len > 0 { idx - 1 } else { idx }
}

/// The position the "next" button moves to.
pub open spec fn next_position(idx: int, len: int) -> int {
    if len > 0 && idx + 1 < len { idx + 1 } else { idx }
}

pub fn previous_index(idx: usize, len: usize) -> (r: usize)
    ensures
        r == previous_position(idx as int, len as int),
{
    if idx > 0 && len > 0 { idx - 1 } else { idx }
}

pub fn next_index(idx: usize, len: usize) -> (r: usize)
    ensures
        r == next_position(idx as int, len as int),
{
    if len > 0 && idx < len - 1 { idx + 1 } else { idx }
}

/// Law: moving through the dialog never leaves the list, and "next" then
/// "previous" comes back to the same invoice (as does "previous" then "next").
pub proof fn lemma_dialog_moves(idx: int, len: int)
    requires
        0 <= idx < len,
    ensures
        0 <= next_position(idx, len) < len,
        0 <= previous_position(idx, len) < len,
        idx + 1 < len ==> previous_position(next_position(idx, len), len) == idx,
        idx > 0 ==> next_position(previous_position(idx, len), len) == idx,
{
}

/// The dialog's counter, `{position + 1} / {count}`.
pub fn dialog_counter(idx: usize, len: usize) -> (r: String)
    requires
        idx < usize::MAX,
    ensures
        r@ == nat_text((idx + 1) as nat) + " / "@ + nat_text(len as nat),
{
    let mut r = count_to_string(idx + 1);
    r.append(" / ");
    r.append(count_to_string(len).as_str());
    r
}

/// After an invoice is booked from the dialog, the dialog moves to the next
/// invoice after it that is not booked yet, or closes where there is none.
pub fn next_unprocessed(list: &Vec<ScannedInvoiceRow>, current: usize) -> (r: Option<usize>)
    ensures
        match r {
            Some(j) => current < j < list.len() && !processed(list@[j as int])
                && forall|k: int| current < k < j ==> processed(#[trigger] list@[k]),
            None => forall|k: int| current < k < list.len() ==> processed(#[trigger] list@[k]),
        },
{
    if current >= list.len() {
        return None;
    }
    let mut j: usize = current + 1;
    while j < list.len()
        invariant
            current < j <= list.len(),
            forall|k: int| current < k < j ==> processed(#[trigger] list@[k]),
        decreases list.len() - j,
    {
        if !is_processed(&list[j]) {
            return Some(j);
        }
        j = j + 1;
    }
    None
}

/// The dialog's name field sets the vendor of a purchase, the customer of a
/// sale.
pub fn set_party_name(inv: &mut ScannedInvoiceRow, value: String)
    ensures
        *final(inv) == (if is_purchase(*old(inv)) {
            ScannedInvoiceRow { vendor_name: Some(value), ..*old(inv) }
        } else {
            ScannedInvoiceRow { customer_name: Some(value), ..*old(inv) }
        }),
{
    if str_eq(inv.direction.as_str(), "purchase") {
        inv.vendor_name = Some(value);
    } else {
        inv.customer_name = Some(value);
    }
}

/// The dialog's VAT number field, likewise.
pub fn set_party_vat_number(inv: &mut ScannedInvoiceRow, value: String)
    ensures
        *final(inv) == (if is_purchase(*old(inv)) {
            ScannedInvoiceRow { vendor_vat_number: Some(value), ..*old(inv) }
        } else {
            ScannedInvoiceRow { customer_vat_number: Some(value), ..*old(inv) }
        }),
{
    if str_eq(inv.direction.as_str(), "purchase") {
        inv.vendor_vat_number = Some(value);
    } else {
        inv.customer_vat_number = Some(value);
    }
}

// ---------------------------------------------------------------------------
// Endpoints, messages and options
// ---------------------------------------------------------------------------

/// The company the page works for: the one selected, else company 1.
pub fn company_or_default(selected: Option<i64>) -> (r: i64)
    ensures
        r == (match selected { Some(c) => c, None => 1 }),
{
    match selected {
        Some(c) => c,
        None => 1,
    }
}

pub open spec fn invoices_path(company_id: i64) -> Seq<char> {
    "/api/companies/"@ + int_text(company_id as int) + "/scanned_invoices"@
}

/// Where the company's scanned invoices are loaded from.
pub fn invoices_url(company_id: i64) -> (r: String)
    ensures
        r@ == invoices_path(company_id),
{
    let mut r = concat("/api/companies/", int_to_string(company_id).as_str());
    r.append("/scanned_invoices");
    r
}

/// Where a file is sent to be scanned (POST).
pub fn scan_url(company_id: i64) -> (r: String)
    ensures
        r@ == invoices_path(company_id) + "/scan"@,
{
    let mut r = invoices_url(company_id);
    r.append("/scan");
    r
}

/// Where an invoice is updated (PUT) or deleted (DELETE).
pub fn invoice_url(company_id: i64, invoice_id: i64) -> (r: String)
    ensures
        r@ == invoices_path(company_id) + "/"@ + int_text(invoice_id as int),
{
    let mut r = invoices_url(company_id);
    r.append("/");
    r.append(int_to_string(invoice_id).as_str());
    r
}

/// Where an invoice is booked as a journal entry (POST).
pub fn journal_entry_url(company_id: i64, invoice_id: i64) -> (r: String)
    ensures
        r@ == invoices_path(company_id) + "/"@ + int_text(invoice_id as int) + "/create_journal_entry"@,
{
    let mut r = invoice_url(company_id, invoice_id);
    r.append("/create_journal_entry");
    r
}

/// What the page shows after asking to book an invoice.
#[derive(Debug, Clone)]
pub enum Feedback {
    Success(String),
    Failure(String),
}

pub fn booking_feedback(reply: ScanReply) -> (r: Feedback)
    ensures
        match reply {
            ScanReply::Answered { success, error } => if success {
                r matches Feedback::Success(m) && m@ == "Осчетоводено успешно"@
            } else {
                r matches Feedback::Failure(m) && m@ == (match error { Some(e) => e@, None => "Грешка"@ })
            },
            ScanReply::Failed(e) => r matches Feedback::Failure(m) && m@ == "Грешка: "@ + e@,
        },
{
    match reply {
        ScanReply::Answered { success, error } => {
            if success {
                Feedback::Success(owned("Осчетоводено успешно"))
            } else {
                Feedback::Failure(match error {
                    Some(e) => e,
                    None => owned("Грешка"),
                })
            }
        },
        ScanReply::Failed(e) => Feedback::Failure(concat("Грешка: ", e.as_str())),
    }
}

/// The VAT period of a date, `YYYY-MM`, from its year and its month counted
/// from 0 (as JavaScript's `Date` gives them).
pub fn current_vat_period(year: u32, month_index: u32) -> (r: String)
    requires
        month_index < u32::MAX,
    ensures
        r@ == padded_text(year as int, 4) + "-"@ + padded_text(month_index + 1, 2),
{
    let mut r = padded_to_string(year as i64, 4);
    r.append("-");
    r.append(padded_to_string((month_index + 1) as i64, 2).as_str());
    r
}

/// The upload options as the page opens: what was stored last time, else a
/// purchase in the current VAT period.
pub fn initial_options(stored_direction: Option<String>, stored_period: Option<String>, current_period: String) -> (r: (String, String))
    ensures
        r.0@ == (match stored_direction { Some(d) => d@, None => "purchase"@ }),
        r.1@ == (match stored_period { Some(p) => p@, None => current_period@ }),
{
    let direction = match stored_direction {
        Some(d) => d,
        None => owned("purchase"),
    };
    let period = match stored_period {
        Some(p) => p,
        None => current_period,
    };
    (direction, period)
}

} // verus!
