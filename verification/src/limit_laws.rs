//! The numbers that the library goes by.

use crate::bsp::ingest::BOOTSTRAP_WAIT_MS;
use crate::bsp::ingest::POLL_INTERVAL_MS;
use crate::bsp::server::METHOD_NOT_FOUND;
use crate::dap::peek::SEQ_BASE;
use crate::engine::compile_store::STORE_VERSION;
use crate::engine::consoles::TAIL_INTERVAL_MS;
use crate::engine::pipeline::BOOT_TIMEOUT_SECS;
use crate::engine::simctl::BOOT_RETRY_BUDGET_MS;
use crate::engine::simctl::BOOT_RETRY_DELAY_MS;
use crate::engine::simctl::PID_POLLS;
use crate::engine::simctl::PID_POLL_DELAY_MS;
use crate::engine::xcodebuild::BATCH_INTERVAL_MS;
use crate::engine::xcodebuild::BATCH_MAX_BYTES;
use crate::engine::xcodebuild::MAX_ERROR_LINES;
use crate::extension::PROXY_BIN;
use crate::extension::PROXY_REPO;
use crate::extension::PROXY_TAG;
use crate::setup::user::KEYMAP_MARKER_ID;
use crate::setup::user::SETTINGS_MARKER_ID;
use crate::util::hash::fnv1a;
use crate::util::logging::LOG_FILE_NAME;
use crate::util::logging::MAX_LOG_BYTES;
use vstd::prelude::*;

verus! {

/// Names of cache files are hashed byte by byte, from FNV's offset basis on: each byte is
/// xored in and the result multiplied by FNV's prime.
pub proof fn lemma_hash_steps(bytes: Seq<u8>, b: u8)
    ensures
        fnv1a(Seq::<u8>::empty()) == 14_695_981_039_346_656_037u64,
        fnv1a(bytes.push(b)) == ((fnv1a(bytes) ^ (b as u64)) * 1_099_511_628_211u64)
            % 18_446_744_073_709_551_616,
{
    assert(bytes.push(b).drop_last() =~= bytes);
    assert(bytes.push(b).last() == b);
}

/// A boot that can be tried again is tried for half a minute, and waited for for four.
pub proof fn lemma_boot_limits()
    ensures
        BOOT_RETRY_BUDGET_MS == 30 * 1000,
        BOOT_RETRY_DELAY_MS == 2 * 1000,
        BOOT_TIMEOUT_SECS == 4 * 60,
{
}

/// The process of a launched app is looked for five times, a second apart.
pub proof fn lemma_poll_limits()
    ensures
        PID_POLLS == 5,
        PID_POLL_DELAY_MS == 1000,
        POLL_INTERVAL_MS == 1000,
        BOOTSTRAP_WAIT_MS == 60 * 1000,
        TAIL_INTERVAL_MS == 75,
{
}

/// Output is sent on after a twentieth of a second or eight kilobytes, of errors the last five
/// lines are kept, and the log is begun anew past five megabytes.
pub proof fn lemma_output_limits()
    ensures
        BATCH_INTERVAL_MS * 20 == 1000,
        BATCH_MAX_BYTES == 8 * 1024,
        MAX_ERROR_LINES == 5,
        MAX_LOG_BYTES == 5 * 1024 * 1024,
        LOG_FILE_NAME@ == "xcode-dap.log"@,
{
}

/// Stores of this version are read, and requests for what is not known are refused with the
/// code that JSON-RPC has for it.
pub proof fn lemma_protocol_numbers()
    ensures
        STORE_VERSION == 1,
        METHOD_NOT_FOUND == -32601,
        SEQ_BASE == 1_000_000,
{
}

/// The adapter is fetched from the project's own releases.
pub proof fn lemma_release_names()
    ensures
        PROXY_REPO@ == "Leonkh/ZedXcode"@,
        PROXY_TAG@ == "xcode-dap-v0.1.0"@,
        PROXY_BIN@ == "xcode-dap"@,
        KEYMAP_MARKER_ID@ == "keymap"@,
        SETTINGS_MARKER_ID@ == "settings"@,
{
}

} // verus!
