//! How the download of a snapshot is shown.

use crate::text::{decimal, decimal_text, lemma_decimal_writes, writes_number};
use vstd::prelude::*;
use vstd::string::StringExecFns;

verus! {

/// The width that a terminal is taken to have: its own, between 80 and 120 columns.
pub open spec fn effective_width(width: int) -> int {
    if width < 80 {
        80
    } else if width > 120 {
        120
    } else {
        width
    }
}

/// The columns of the message: an eighth of the width, between 8 and 20.
pub open spec fn message_width(width: int) -> int {
    let eighth = effective_width(width) / 8;
    if eighth < 8 {
        8
    } else if eighth > 20 {
        20
    } else {
        eighth
    }
}

/// The columns that are not the bar's: the message and 45 for the labels and the byte counts.
pub open spec fn reserved_width(width: int) -> int {
    45 + message_width(width)
}

/// The columns of the bar: eight tenths of what is not reserved, 60 at most, and 30 if nothing
/// is left.
pub open spec fn bar_width(width: int) -> int {
    if effective_width(width) > reserved_width(width) {
        let share = (effective_width(width) - reserved_width(width)) * 8 / 10;
        if share > 60 {
            60
        } else {
            share
        }
    } else {
        30
    }
}

/// The columns of the bar and of the message: 40 and 20 if the terminal's width is not known.
pub open spec fn progress_widths(terminal_width: Option<u16>) -> (int, int) {
    match terminal_width {
        Some(width) => (bar_width(width as int), message_width(width as int)),
        None => (40, 20),
    }
}

/// The template of a progress bar with those columns.
pub open spec fn progress_template(bar: int, message: int) -> Seq<char> {
    " {spinner:.yellow} snapshot [{bar:"@ + decimal(bar)
        + ".cyan/blue}] {bytes}/{total_bytes} Downloading{wide_msg:>"@ + decimal(message)
        + ".blue}"@
}

fn compute_widths(width: u16) -> (widths: (u64, u64))
    ensures
        widths.0 == bar_width(width as int),
        widths.1 == message_width(width as int),
{
    let width: u64 = width as u64;
    let narrowed: u64 = if width < 120 {
        width
    } else {
        120
    };
    let effective: u64 = if narrowed > 80 {
        narrowed
    } else {
        80
    };
    let eighth: u64 = effective / 8;
    let message: u64 = if eighth < 8 {
        8
    } else if eighth > 20 {
        20
    } else {
        eighth
    };
    let reserved: u64 = 45 + message;
    let bar: u64 = if effective > reserved {
        let share: u64 = ((effective - reserved) * 8) / 10;
        if share > 60 {
            60
        } else {
            share
        }
    } else {
        30
    };
    (bar, message)
}

/// The template of the progress bar for a terminal with that many columns, if they are known.
pub fn create_progress_bar_template(terminal_width: Option<u16>) -> (template: String)
    ensures
        template@ == progress_template(
            progress_widths(terminal_width).0,
            progress_widths(terminal_width).1,
        ),
{
    let (bar, message): (u64, u64) = match terminal_width {
        Some(width) => compute_widths(width),
        None => (40, 20),
    };
    let mut template: String = String::from_str(" {spinner:.yellow} snapshot [{bar:");
    template.append(decimal_text(bar).as_str());
    template.append(".cyan/blue}] {bytes}/{total_bytes} Downloading{wide_msg:>");
    template.append(decimal_text(message).as_str());
    template.append(".blue}");
    template
}

/// How much of a snapshot has been downloaded.
#[derive(Debug, Clone, Copy, PartialEq, Eq, Structural)]
pub struct SnapshotProgress {
    /// The bytes that are there.
    pub downloaded: u64,
    /// The bytes that there will be.
    pub total_size: u64,
}

/// The progress after `bytes` more bytes: it does not pass the total.
pub open spec fn advanced(downloaded: int, bytes: int, total_size: int) -> int {
    if downloaded + bytes < total_size {
        downloaded + bytes
    } else {
        total_size
    }
}

impl SnapshotProgress {
    /// Before the first byte. A size that is not known counts as zero.
    pub fn new(content_length: Option<u64>) -> (progress: Self)
        ensures
            progress.downloaded == 0,
            progress.total_size == (match content_length {
                Some(length) => length,
                None => 0,
            }),
    {
        SnapshotProgress {
            downloaded: 0,
            total_size: match content_length {
                Some(length) => length,
                None => 0,
            },
        }
    }

    /// Takes a chunk of the snapshot.
    pub fn advance(&mut self, chunk: u64)
        ensures
            final(self).downloaded == advanced(
                old(self).downloaded as int,
                chunk as int,
                old(self).total_size as int,
            ),
            final(self).total_size == old(self).total_size,
    {
        let sum: u64 = self.downloaded.saturating_add(chunk);
        self.downloaded = if sum < self.total_size {
            sum
        } else {
            self.total_size
        };
    }
}

/// The bar, the message and the labels fit into a terminal of 80 columns or more.
pub proof fn law_progress_bar_fits(width: u16)
    requires
        width >= 80,
    ensures
        progress_widths(Some(width)).0 + reserved_width(width as int) <= width,
        progress_widths(Some(width)).0 > 0,
        8 <= progress_widths(Some(width)).1 <= 20,
{
}

/// The sum of the chunks of a download.
pub open spec fn chunk_sum(chunks: Seq<u64>) -> int
    decreases chunks.len(),
{
    if chunks.len() == 0 {
        0
    } else {
        chunk_sum(chunks.drop_last()) + chunks.last()
    }
}

/// The progress after the chunks of a download.
pub open spec fn progress_after(chunks: Seq<u64>, total_size: int) -> int
    decreases chunks.len(),
{
    if chunks.len() == 0 {
        0
    } else {
        advanced(progress_after(chunks.drop_last(), total_size), chunks.last() as int, total_size)
    }
}

/// The progress after any chunks is their sum, up to the total.
pub proof fn law_progress_is_the_sum(chunks: Seq<u64>, total_size: int)
    requires
        total_size >= 0,
    ensures
        progress_after(chunks, total_size) == (if chunk_sum(chunks) < total_size {
            chunk_sum(chunks)
        } else {
            total_size
        }),
        0 <= chunk_sum(chunks),
    decreases chunks.len(),
{
    if chunks.len() > 0 {
        law_progress_is_the_sum(chunks.drop_last(), total_size);
    }
}

/// The progress never falls, and never passes the total.
pub proof fn law_progress_never_falls(chunks: Seq<u64>, chunk: u64, total_size: int)
    requires
        total_size >= 0,
    ensures
        progress_after(chunks, total_size) <= progress_after(chunks.push(chunk), total_size)
            <= total_size,
{
    law_progress_is_the_sum(chunks, total_size);
    assert(chunks.push(chunk).drop_last() =~= chunks);
}

/// Whether a template shows a bar and a message of so many columns.
pub open spec fn shows_columns(template: Seq<char>, bar: int, message: int) -> bool {
    exists|bar_digits: Seq<char>, message_digits: Seq<char>|
        writes_number(bar_digits, bar) && writes_number(message_digits, message) && template == (
        " {spinner:.yellow} snapshot [{bar:"@ + bar_digits
            + ".cyan/blue}] {bytes}/{total_bytes} Downloading{wide_msg:>"@ + message_digits
            + ".blue}"@)
}

proof fn lemma_template_shows(bar: int, message: int)
    requires
        bar >= 0,
        message >= 0,
    ensures
        shows_columns(progress_template(bar, message), bar, message),
{
    lemma_decimal_writes(bar);
    lemma_decimal_writes(message);
    assert(writes_number(decimal(bar), bar) && writes_number(decimal(message), message));
}

/// Between 80 and 120 columns the message gets an eighth of them, and the bar eight tenths of what
/// the message and 45 columns leave. A narrower terminal is treated as one of 80 columns, a wider
/// one as one of 120, and an unknown one gets 40 and 20.
pub proof fn law_columns_of_the_template(terminal_width: Option<u16>, template: String)
    requires
        call_ensures(create_progress_bar_template, (terminal_width,), template),
    ensures
        terminal_width is None ==> shows_columns(template@, 40, 20),
        terminal_width matches Some(width) ==> {
            &&& 80 <= width <= 120 ==> shows_columns(
                template@,
                (width - 45 - width / 8) * 8 / 10,
                (width / 8) as int,
            )
            &&& width < 80 ==> shows_columns(template@, 20, 10)
            &&& width > 120 ==> shows_columns(template@, 48, 15)
        },
{
    let widths = progress_widths(terminal_width);
    lemma_template_shows(widths.0, widths.1);
}

/// The template shows the bar's and the message's columns at their places and nothing else that
/// depends on the terminal.
pub proof fn law_template_depends_on_the_columns_alone(
    terminal_width: Option<u16>,
    template: String,
    bar: u64,
    bar_digits: String,
    message: u64,
    message_digits: String,
)
    requires
        call_ensures(create_progress_bar_template, (terminal_width,), template),
        call_ensures(decimal_text, (bar,), bar_digits),
        call_ensures(decimal_text, (message,), message_digits),
        terminal_width is None ==> bar == 40 && message == 20,
        terminal_width matches Some(width) ==> {
            &&& 80 <= width <= 120 ==> bar == (width - 45 - width / 8) * 8 / 10 && message == width
                / 8
            &&& width < 80 ==> bar == 20 && message == 10
            &&& width > 120 ==> bar == 48 && message == 15
        },
    ensures
        template@ == " {spinner:.yellow} snapshot [{bar:"@ + bar_digits@
            + ".cyan/blue}] {bytes}/{total_bytes} Downloading{wide_msg:>"@ + message_digits@
            + ".blue}"@,
{
}

/// A download begins with nothing, and with the size that is known, or zero.
pub proof fn law_download_begins(content_length: Option<u64>, progress: SnapshotProgress)
    requires
        call_ensures(SnapshotProgress::new, (content_length,), progress),
    ensures
        progress.downloaded == 0,
        content_length matches Some(length) ==> progress.total_size == length,
        content_length is None ==> progress.total_size == 0,
{
}

/// A chunk brings the download on by its length, unless this would pass the total: then the total
/// is reached. The total stays.
pub proof fn law_chunk_brings_the_download_on()
    ensures
        forall|progress: &mut SnapshotProgress, chunk: u64| #[trigger]
            call_ensures(SnapshotProgress::advance, (progress, chunk), ()) ==> {
                &&& final(progress).total_size == progress.total_size
                &&& progress.downloaded + chunk <= progress.total_size
                    ==> final(progress).downloaded == progress.downloaded + chunk
                &&& progress.downloaded + chunk > progress.total_size
                    ==> final(progress).downloaded == progress.total_size
            },
{
}

} // verus!
