//! Flash orchestration: padding the flattened image to the device's page
//! size, then sequencing the bootloader protocol — enter flash mode, write
//! the image page by page, verify it by per-page checksums, and reset the
//! device into the application.
//!
//! The orchestrator itself performs no device exchange. It is a state
//! machine: `current_action` says which protocol command to issue next, and
//! `step` consumes the outcome of that command and moves to the next state.
//! The caller owns the transport and runs the loop.

use vstd::prelude::*;

use crate::checksum::local_checksums;
use crate::checksum::lemma_num_pages_bounds;
use crate::checksum::lemma_num_pages_exact;
use crate::checksum::mismatch_list;
use crate::checksum::mismatched_pages;
use crate::checksum::page_checksums;
use crate::checksum::spec_num_pages;
use crate::image::FlatImage;
use crate::image::zero_bytes;

verus! {

/// The mode a device reports itself in.
#[derive(Clone, Copy, Debug, PartialEq, Eq, Structural)]
pub enum DeviceMode {
    Bootloader,
    Application,
}

/// What a `bin_info` query reports of the device, fetched once before
/// flashing and immutable for the run.
#[derive(Clone, Copy, Debug, PartialEq, Eq, Structural)]
pub struct DeviceDescriptor {
    pub mode: DeviceMode,
    /// Bytes per flash page.
    pub flash_page_size: u32,
    /// Bytes per protocol response.
    pub max_message_size: u32,
}

/// Why a flash run failed. Every failure is fatal to the run: nothing is
/// retried.
#[derive(Debug, PartialEq, Eq)]
pub enum FlashError {
    /// The flattened image holds no bytes.
    EmptyImage,
    /// A device command failed, or a checksum response was too short.
    ProtocolError,
    /// The write of the page with this index failed.
    WriteFailed { page_index: usize },
    /// The device's checksums diverge from the local ones at these page
    /// indices, in ascending order.
    VerifyMismatch { indices: Vec<usize> },
}

/// Where a flash run stands.
#[derive(Clone, Copy, Debug, PartialEq, Eq, Structural)]
pub enum FlashStage {
    /// `start_flash` must be issued before any write.
    EnteringBootloaderMode,
    /// Pages below `next_page` are written; `next_page` is next.
    Writing { next_page: usize },
    /// Checksums of pages below `next_page` are queried; a batch starting at
    /// `next_page` is next.
    Verifying { next_page: usize },
    /// The image is written and verified; `reset_into_app` is next.
    ResettingToApp,
    /// The run completed every stage.
    Done,
    /// The run aborted; the orchestrator's `failure` says why.
    Failed,
}

/// The next protocol command a flash run asks its caller to issue.
#[derive(Debug, PartialEq, Eq)]
pub enum Action {
    /// Issue `start_flash`.
    StartFlash,
    /// Issue `write_flash_page` with this target address and page content.
    WritePage { address: u32, page_index: usize, data: Vec<u8> },
    /// Issue `checksum_pages` for `page_count` pages from this address.
    ChecksumPages { address: u32, page_count: u32 },
    /// Issue `reset_into_app`.
    ResetIntoApp,
}

/// The outcome of the command that `current_action` asked for.
#[derive(Debug, PartialEq, Eq)]
pub enum Event {
    /// The command succeeded (any command but `checksum_pages`).
    Ack,
    /// The command failed.
    Failure,
    /// A `checksum_pages` response: the reported checksums, in page order.
    Checksums { checksums: Vec<u16> },
}

/// The length a buffer has after padding up to a whole number of pages.
pub open spec fn padded_len(len: int, page: int) -> int
    recommends
        page >= 1,
{
    spec_num_pages(len, page) * page
}

/// The bytes a buffer has after padding: the buffer, then zero bytes up to
/// the next page boundary.
pub open spec fn pad_spec(b: Seq<u8>, page: int) -> Seq<u8>
    recommends
        page >= 1,
{
    b + zero_bytes(padded_len(b.len() as int, page) - b.len())
}

/// Padding is idempotent: a buffer already a whole number of pages is left
/// unchanged, with zero bytes appended.
pub proof fn lemma_pad_idempotent(b: Seq<u8>, page: int)
    requires
        page >= 1,
        b.len() as int % page == 0,
    ensures
        pad_spec(b, page) == b,
{
    lemma_num_pages_bounds(b.len() as int, page);
    assert(pad_spec(b, page) =~= b);
}

/// The padded length is a whole number of pages, and spans exactly the
/// ceiling of the unpadded length over the page size.
pub proof fn lemma_padded_page_count(len: int, page: int)
    requires
        page >= 1,
        len >= 0,
    ensures
        padded_len(len, page) % page == 0,
        padded_len(len, page) / page == spec_num_pages(len, page),
        padded_len(len, page) >= len,
{
    let n = spec_num_pages(len, page);
    lemma_num_pages_bounds(len, page);
    vstd::arithmetic::div_mod::lemma_mod_multiples_basic(n, page);
    vstd::arithmetic::div_mod::lemma_div_by_multiple(n, page);
}

/// Extends a buffer with zero bytes up to the next multiple of the page
/// size. A buffer already a multiple of the page size is left unchanged, and
/// the padded page count equals the ceiling of the unpadded length over the
/// page size.
pub fn pad_to_page_size(bytes: &mut Vec<u8>, page_size: u32)
    requires
        page_size >= 1,
        old(bytes)@.len() + page_size <= u32::MAX,
    ensures
        final(bytes)@ == pad_spec(old(bytes)@, page_size as int),
        final(bytes)@.len() == padded_len(old(bytes)@.len() as int, page_size as int),
        final(bytes)@.len() as int % (page_size as int) == 0,
        final(bytes)@.len() as int / (page_size as int) == spec_num_pages(
            old(bytes)@.len() as int,
            page_size as int,
        ),
        old(bytes)@.len() as int % (page_size as int) == 0 ==> final(bytes)@ == old(bytes)@,
{
    let p: usize = page_size as usize;
    let blen: usize = bytes.len();
    let ghost n = spec_num_pages(blen as int, p as int);
    proof {
        lemma_num_pages_bounds(blen as int, p as int);
        vstd::arithmetic::div_mod::lemma_mod_multiples_basic(n, p as int);
        vstd::arithmetic::div_mod::lemma_div_by_multiple(n, p as int);
        vstd::arithmetic::div_mod::lemma_fundamental_div_mod(blen as int, p as int);
        vstd::arithmetic::div_mod::lemma_mod_division_less_than_divisor(blen as int, p as int);
        vstd::arithmetic::mul::lemma_mul_is_commutative(p as int, blen as int / p as int);
    }
    let target: usize = if blen % p == 0 {
        blen
    } else {
        blen / p * p + p
    };
    proof {
        vstd::arithmetic::mul::lemma_mul_is_distributive_add_other_way(
            p as int,
            blen as int / p as int,
            1,
        );
        vstd::arithmetic::mul::lemma_mul_basics(p as int);
        vstd::arithmetic::mul::lemma_mul_is_commutative(p as int, blen as int / p as int);
        assert(target == padded_len(blen as int, p as int));
    }
    let mut i: usize = blen;
    #[verifier::loop_isolation(false)]
    while i < target
        invariant
            blen <= i <= target,
            bytes@ == old(bytes)@ + zero_bytes(i - blen),
        decreases target - i,
    {
        bytes.push(0u8);
        proof {
            assert(bytes@ =~= old(bytes)@ + zero_bytes(i + 1 - blen));
        }
        i = i + 1;
    }
    proof {
        if blen as int % p as int == 0 {
            assert(bytes@ =~= old(bytes)@);
        }
    }
}

/// One flash run over a flattened image: the padded binary, the device
/// parameters fixed for the run, and where the run stands.
///
/// The run moves `EnteringBootloaderMode -> Writing -> Verifying ->
/// ResettingToApp -> Done`, with `Failed` reachable from every non-terminal
/// stage and no retry at any transition.
pub struct Orchestrator {
    /// The padded binary to write: a whole number of pages.
    pub binary: Vec<u8>,
    /// The address the first byte of `binary` is written to.
    pub base_address: u32,
    /// Bytes per flash page.
    pub page_size: u32,
    /// Pages per checksum query batch.
    pub max_pages: u32,
    /// The checksums the device reported so far, in page order.
    pub device_checksums: Vec<u16>,
    /// Where the run stands.
    pub stage: FlashStage,
    /// Why the run failed, where `stage` is `Failed`.
    pub failure: Option<FlashError>,
}

impl Orchestrator {
    /// How many pages the padded binary spans.
    pub open spec fn num_pages(self) -> int {
        self.binary@.len() as int / self.page_size as int
    }

    /// The bytes of page `i` of the padded binary.
    pub open spec fn page_at(self, i: int) -> Seq<u8> {
        self.binary@.subrange(i * self.page_size, (i + 1) * self.page_size)
    }

    /// How many pages the checksum query starting at page `q` covers: a full
    /// batch, or the pages that remain.
    pub open spec fn batch_count(self, q: int) -> int {
        if self.num_pages() - q < self.max_pages {
            self.num_pages() - q
        } else {
            self.max_pages as int
        }
    }

    /// Well-formedness of a run: the binary is a non-zero whole number of
    /// pages, its address range fits the 32-bit address space, batches are
    /// non-empty, page cursors lie in range, and a failure reason is held
    /// exactly in the `Failed` stage.
    pub open spec fn wf(self) -> bool {
        &&& self.page_size >= 1
        &&& self.max_pages >= 1
        &&& self.binary@.len() >= self.page_size
        &&& self.binary@.len() as int % self.page_size as int == 0
        &&& self.base_address + self.binary@.len() <= u32::MAX
        &&& (match self.stage {
            FlashStage::Writing { next_page } => next_page < self.num_pages(),
            FlashStage::Verifying { next_page } => next_page < self.num_pages(),
            _ => true,
        })
        &&& (self.stage is Failed <==> self.failure is Some)
    }

    /// A binary of at least one page spans at least one page, and never more
    /// pages than bytes.
    proof fn lemma_num_pages_pos(self)
        requires
            self.page_size >= 1,
            self.binary@.len() >= self.page_size,
        ensures
            self.num_pages() >= 1,
            self.num_pages() <= self.binary@.len(),
    {
        let p = self.page_size as int;
        let len = self.binary@.len() as int;
        vstd::arithmetic::div_mod::lemma_div_by_self(p);
        vstd::arithmetic::div_mod::lemma_div_is_ordered(p, len, p);
        vstd::arithmetic::div_mod::lemma_div_nonincreasing(len, p);
    }

    /// Bounds the byte range of a page in range: it lies inside the binary.
    proof fn lemma_page_mul_bounds(self, i: int)
        requires
            self.wf(),
            0 <= i < self.num_pages(),
        ensures
            i * self.page_size >= 0,
            i * self.page_size + self.page_size <= self.binary@.len(),
            (i + 1) * self.page_size == i * self.page_size + self.page_size,
            self.num_pages() <= self.binary@.len(),
    {
        let p = self.page_size as int;
        let len = self.binary@.len() as int;
        let n = len / p;
        vstd::arithmetic::div_mod::lemma_fundamental_div_mod(len, p);
        vstd::arithmetic::mul::lemma_mul_is_commutative(p, n);
        vstd::arithmetic::mul::lemma_mul_is_distributive_add_other_way(p, i, 1);
        vstd::arithmetic::mul::lemma_mul_basics(p);
        vstd::arithmetic::mul::lemma_mul_inequality(i + 1, n, p);
        vstd::arithmetic::mul::lemma_mul_nonnegative(i, p);
        vstd::arithmetic::div_mod::lemma_div_nonincreasing(len, p);
    }

    /// Prepares a flash run: rejects an empty image, pads the flattened
    /// bytes to a whole number of pages, and starts in the stage the
    /// device's current mode calls for — a device already in bootloader mode
    /// skips `start_flash`.
    pub fn new(flat: FlatImage, descriptor: &DeviceDescriptor) -> (r: Result<
        Orchestrator,
        FlashError,
    >)
        requires
            descriptor.flash_page_size >= 1,
            descriptor.max_message_size >= 6,
            flat.bytes@.len() + descriptor.flash_page_size <= u32::MAX,
            flat.base_address + padded_len(
                flat.bytes@.len() as int,
                descriptor.flash_page_size as int,
            ) <= u32::MAX,
        ensures
            flat.bytes@.len() == 0 ==> (r matches Result::Err(e) && e is EmptyImage),
            flat.bytes@.len() > 0 ==> (r matches Result::Ok(o) && o.wf() && o.binary@ == pad_spec(
                flat.bytes@,
                descriptor.flash_page_size as int,
            ) && o.base_address == flat.base_address && o.page_size == descriptor.flash_page_size
                && o.max_pages == descriptor.max_message_size / 2 - 2 && o.device_checksums@
                == Seq::<u16>::empty() && o.failure is None && o.stage == (
            if descriptor.mode is Bootloader {
                FlashStage::Writing { next_page: 0 }
            } else {
                FlashStage::EnteringBootloaderMode
            })),
    {
        if flat.bytes.len() == 0 {
            return Result::Err(FlashError::EmptyImage);
        }
        let mut binary = flat.bytes;
        let ghost unpadded = binary@;
        pad_to_page_size(&mut binary, descriptor.flash_page_size);
        proof {
            let p = descriptor.flash_page_size as int;
            lemma_num_pages_bounds(unpadded.len() as int, p);
            vstd::arithmetic::mul::lemma_mul_inequality(1, spec_num_pages(unpadded.len() as int, p), p);
            vstd::arithmetic::mul::lemma_mul_basics(p);
            vstd::arithmetic::div_mod::lemma_div_by_self(p);
            vstd::arithmetic::div_mod::lemma_div_is_ordered(p, binary@.len() as int, p);
        }
        let max_pages: u32 = descriptor.max_message_size / 2 - 2;
        let stage = if descriptor.mode == DeviceMode::Bootloader {
            FlashStage::Writing { next_page: 0 }
        } else {
            FlashStage::EnteringBootloaderMode
        };
        Result::Ok(
            Orchestrator {
                binary,
                base_address: flat.base_address,
                page_size: descriptor.flash_page_size,
                max_pages,
                device_checksums: Vec::new(),
                stage,
                failure: Option::None,
            },
        )
    }

    /// The protocol command to issue next, or `None` once the run has ended.
    /// In the writing stage the command carries the next page's address and
    /// bytes; in the verifying stage it asks for the next checksum batch.
    pub fn current_action(&self) -> (r: Option<Action>)
        requires
            self.wf(),
        ensures
            match self.stage {
                FlashStage::EnteringBootloaderMode => r matches Option::Some(a) && a
                    is StartFlash,
                FlashStage::Writing { next_page } => r matches Option::Some(a) && (
                a matches Action::WritePage { address, page_index, data } && page_index
                    == next_page && address == self.base_address + next_page * self.page_size
                    && data@ == self.page_at(next_page as int)),
                FlashStage::Verifying { next_page } => r matches Option::Some(a) && (
                a matches Action::ChecksumPages { address, page_count } && address
                    == self.base_address + next_page * self.page_size && page_count
                    == self.batch_count(next_page as int)),
                FlashStage::ResettingToApp => r matches Option::Some(a) && a is ResetIntoApp,
                FlashStage::Done => r is None,
                FlashStage::Failed => r is None,
            },
    {
        match self.stage {
            FlashStage::EnteringBootloaderMode => Option::Some(Action::StartFlash),
            FlashStage::Writing { next_page } => {
                proof {
                    self.lemma_page_mul_bounds(next_page as int);
                }
                let start: usize = next_page * (self.page_size as usize);
                let end: usize = start + self.page_size as usize;
                let data = vstd::slice::slice_to_vec(
                    vstd::slice::slice_subrange(self.binary.as_slice(), start, end),
                );
                let address: u32 = self.base_address + (next_page as u32) * self.page_size;
                Option::Some(Action::WritePage { address, page_index: next_page, data })
            },
            FlashStage::Verifying { next_page } => {
                proof {
                    self.lemma_page_mul_bounds(next_page as int);
                }
                let num: usize = self.binary.len() / (self.page_size as usize);
                let remaining: u32 = (num - next_page) as u32;
                let page_count: u32 = if remaining < self.max_pages {
                    remaining
                } else {
                    self.max_pages
                };
                let address: u32 = self.base_address + (next_page as u32) * self.page_size;
                Option::Some(Action::ChecksumPages { address, page_count })
            },
            FlashStage::ResettingToApp => Option::Some(Action::ResetIntoApp),
            FlashStage::Done => Option::None,
            FlashStage::Failed => Option::None,
        }
    }

    /// Consumes the outcome of the command `current_action` asked for and
    /// moves the run one transition: an acknowledged write advances to the
    /// next page or to verification; a checksum response is appended and, at
    /// the last batch, compared page by page against the locally recomputed
    /// checksums — every mismatching index is collected before the run
    /// fails; any command failure aborts the run with the error owed to its
    /// stage.
    pub fn step(&mut self, event: Event)
        requires
            old(self).wf(),
            !(old(self).stage is Done),
            !(old(self).stage is Failed),
            event is Checksums ==> old(self).stage is Verifying,
            event is Ack ==> !(old(self).stage is Verifying),
        ensures
            final(self).wf(),
            final(self).binary == old(self).binary,
            final(self).base_address == old(self).base_address,
            final(self).page_size == old(self).page_size,
            final(self).max_pages == old(self).max_pages,
            !(old(self).stage is Verifying) ==> final(self).device_checksums
                == old(self).device_checksums,
            old(self).stage is EnteringBootloaderMode ==> (match event {
                Event::Ack => final(self).stage == (FlashStage::Writing { next_page: 0 })
                    && final(self).failure is None,
                Event::Failure => final(self).stage is Failed && (final(self).failure matches
                Option::Some(e) && e is ProtocolError),
                Event::Checksums { .. } => true,
            }),
            old(self).stage matches FlashStage::Writing { next_page } ==> (match event {
                Event::Ack => (if next_page + 1 < old(self).num_pages() {
                    final(self).stage == (FlashStage::Writing { next_page: (next_page + 1) as usize })
                } else {
                    final(self).stage == (FlashStage::Verifying { next_page: 0 })
                }) && final(self).failure is None,
                Event::Failure => final(self).stage is Failed && (final(self).failure matches
                Option::Some(e) && (e matches FlashError::WriteFailed { page_index } && page_index
                    == next_page)),
                Event::Checksums { .. } => true,
            }),
            old(self).stage matches FlashStage::Verifying { next_page } ==> (match event {
                Event::Checksums { checksums } => ({
                    let n = old(self).num_pages();
                    let q2 = next_page + old(self).batch_count(next_page as int);
                    let cs2 = old(self).device_checksums@ + checksums@;
                    let mis = mismatch_list(
                        local_checksums(old(self).binary@, old(self).page_size as int),
                        cs2,
                        n,
                    );
                    &&& final(self).device_checksums@ == cs2
                    &&& (q2 < n ==> final(self).stage == (FlashStage::Verifying {
                        next_page: q2 as usize,
                    }) && final(self).failure is None)
                    &&& (q2 >= n && cs2.len() < n ==> final(self).stage is Failed && (
                    final(self).failure matches Option::Some(e) && e is ProtocolError))
                    &&& (q2 >= n && cs2.len() >= n && mis.len() == 0 ==> final(self).stage
                        is ResettingToApp && final(self).failure is None)
                    &&& (q2 >= n && cs2.len() >= n && mis.len() > 0 ==> final(self).stage
                        is Failed && (final(self).failure matches Option::Some(e) && (
                    e matches FlashError::VerifyMismatch { indices } && indices@ == mis)))
                }),
                Event::Failure => final(self).stage is Failed && (final(self).failure matches
                Option::Some(e) && e is ProtocolError),
                Event::Ack => true,
            }),
            old(self).stage is ResettingToApp ==> (match event {
                Event::Ack => final(self).stage is Done && final(self).failure is None,
                Event::Failure => final(self).stage is Failed && (final(self).failure matches
                Option::Some(e) && e is ProtocolError),
                Event::Checksums { .. } => true,
            }),
    {
        match self.stage {
            FlashStage::EnteringBootloaderMode => {
                match event {
                    Event::Ack => {
                        proof {
                            self.lemma_num_pages_pos();
                        }
                        self.stage = FlashStage::Writing { next_page: 0 };
                    },
                    Event::Failure => {
                        self.stage = FlashStage::Failed;
                        self.failure = Option::Some(FlashError::ProtocolError);
                    },
                    Event::Checksums { .. } => {},
                }
            },
            FlashStage::Writing { next_page } => {
                match event {
                    Event::Ack => {
                        let num: usize = self.binary.len() / (self.page_size as usize);
                        let np: usize = next_page + 1;
                        if np < num {
                            self.stage = FlashStage::Writing { next_page: np };
                        } else {
                            proof {
                                self.lemma_num_pages_pos();
                            }
                            self.stage = FlashStage::Verifying { next_page: 0 };
                        }
                    },
                    Event::Failure => {
                        self.stage = FlashStage::Failed;
                        self.failure = Option::Some(
                            FlashError::WriteFailed { page_index: next_page },
                        );
                    },
                    Event::Checksums { .. } => {},
                }
            },
            FlashStage::Verifying { next_page } => {
                match event {
                    Event::Checksums { checksums } => {
                        let mut incoming = checksums;
                        self.device_checksums.append(&mut incoming);
                        let num: usize = self.binary.len() / (self.page_size as usize);
                        proof {
                            self.lemma_page_mul_bounds(next_page as int);
                        }
                        let remaining: usize = num - next_page;
                        let count: usize = if remaining < self.max_pages as usize {
                            remaining
                        } else {
                            self.max_pages as usize
                        };
                        let q2: usize = next_page + count;
                        if q2 < num {
                            self.stage = FlashStage::Verifying { next_page: q2 };
                        } else if self.device_checksums.len() < num {
                            self.stage = FlashStage::Failed;
                            self.failure = Option::Some(FlashError::ProtocolError);
                        } else {
                            let local = page_checksums(&self.binary, self.page_size);
                            proof {
                                lemma_num_pages_exact(
                                    self.binary@.len() as int,
                                    self.page_size as int,
                                );
                            }
                            let mis = mismatched_pages(&local, &self.device_checksums);
                            if mis.len() == 0 {
                                self.stage = FlashStage::ResettingToApp;
                            } else {
                                self.stage = FlashStage::Failed;
                                self.failure = Option::Some(
                                    FlashError::VerifyMismatch { indices: mis },
                                );
                            }
                        }
                    },
                    Event::Failure => {
                        self.stage = FlashStage::Failed;
                        self.failure = Option::Some(FlashError::ProtocolError);
                    },
                    Event::Ack => {},
                }
            },
            FlashStage::ResettingToApp => {
                match event {
                    Event::Ack => {
                        self.stage = FlashStage::Done;
                    },
                    Event::Failure => {
                        self.stage = FlashStage::Failed;
                        self.failure = Option::Some(FlashError::ProtocolError);
                    },
                    Event::Checksums { .. } => {},
                }
            },
            FlashStage::Done => {},
            FlashStage::Failed => {},
        }
    }
}

} // verus!
