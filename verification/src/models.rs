//! Model selection from the hardware at hand, and the system context shown
//! to the user.
//!
//! Memory is held in bytes. A model tier's threshold is a whole number of
//! GiB, and a tier fits when the available memory, less 1 GiB of headroom,
//! reaches it.

use vstd::prelude::*;
use crate::numfmt::{f64_of, f64_value, one_decimal, one_decimal_chars};
use crate::text::{
    append_chars, append_str, chars_of, contains, contains_seq, decimal, decimal_chars, has_char,
    is_prefix, starts_with, string_of, trim, trim_of,
};

verus! {

/// Bytes in a GiB.
pub const GIB: u64 = 1_073_741_824;

/// A model tier.
#[derive(Debug, Clone)]
pub struct ModelTier {
    /// Display name.
    pub name: &'static str,
    /// Model identifier for the inference service.
    pub model_id: &'static str,
    /// Memory needed, as shown to the user.
    pub ram_required: &'static str,
    /// Memory threshold for automatic selection, in whole GiB.
    pub ram_threshold_gb: u64,
    /// Description.
    pub description: &'static str,
}

/// What the system offers.
#[derive(Debug, Clone)]
pub struct SystemContext {
    /// Total memory, in bytes.
    pub ram_total_bytes: u64,
    /// Available memory, in bytes.
    pub ram_available_bytes: u64,
    /// Number of CPU cores.
    pub cpu_cores: usize,
    /// GPU information, if available.
    pub gpu_info: Option<String>,
}

/// The model tiers, smallest first: name, model id, memory shown, threshold
/// in GiB, description.
pub open spec fn tier_table() -> Seq<(Seq<char>, Seq<char>, Seq<char>, nat, Seq<char>)> {
    seq![
        ("hope-nano"@, "smollm2:135m"@, "< 4GB"@, 0, "SmolLM2-360M — runs on anything, 128MB RAM"@),
        ("hope-small"@, "phi4-mini"@, "4GB+"@, 4, "Phi-4-mini-Q4 — fast, 800MB RAM"@),
        ("hope-medium"@, "lfm-2.5:1.6b"@, "8GB+"@, 8, "LFM-2.5 1.6B — balanced, 1.5GB RAM"@),
        ("hope-large"@, "qwen3:7b-q4"@, "16GB+"@, 16, "Qwen3-7B-Q4 — powerful, 4GB RAM"@),
        ("hope-xl"@, "llama3.1:8b"@, "32GB+"@, 32, "Llama3.1-8B — maximum quality, 6GB RAM"@),
    ]
}

/// A tier matches a row of the tier table.
pub open spec fn is_tier_row(t: ModelTier, row: (Seq<char>, Seq<char>, Seq<char>, nat, Seq<char>)) -> bool {
    &&& t.name@ == row.0
    &&& t.model_id@ == row.1
    &&& t.ram_required@ == row.2
    &&& t.ram_threshold_gb == row.3
    &&& t.description@ == row.4
}

/// All model tiers, smallest first.
pub fn all_models() -> (r: Vec<ModelTier>)
    ensures
        r@.len() == tier_table().len(),
        forall|i: int| 0 <= i < r@.len() ==> is_tier_row(#[trigger] r@[i], tier_table()[i]),
{
    let mut v: Vec<ModelTier> = Vec::new();
    v.push(ModelTier {
        name: "hope-nano",
        model_id: "smollm2:135m",
        ram_required: "< 4GB",
        ram_threshold_gb: 0,
        description: "SmolLM2-360M — runs on anything, 128MB RAM",
    });
    v.push(ModelTier {
        name: "hope-small",
        model_id: "phi4-mini",
        ram_required: "4GB+",
        ram_threshold_gb: 4,
        description: "Phi-4-mini-Q4 — fast, 800MB RAM",
    });
    v.push(ModelTier {
        name: "hope-medium",
        model_id: "lfm-2.5:1.6b",
        ram_required: "8GB+",
        ram_threshold_gb: 8,
        description: "LFM-2.5 1.6B — balanced, 1.5GB RAM",
    });
    v.push(ModelTier {
        name: "hope-large",
        model_id: "qwen3:7b-q4",
        ram_required: "16GB+",
        ram_threshold_gb: 16,
        description: "Qwen3-7B-Q4 — powerful, 4GB RAM",
    });
    v.push(ModelTier {
        name: "hope-xl",
        model_id: "llama3.1:8b",
        ram_required: "32GB+",
        ram_threshold_gb: 32,
        description: "Llama3.1-8B — maximum quality, 6GB RAM",
    });
    v
}

/// The memory usable by a model: what is available less 1 GiB of headroom
/// for the system, and none when less than that is available.
pub open spec fn usable_bytes(available_bytes: nat) -> nat {
    if available_bytes >= GIB { (available_bytes - GIB) as nat } else { 0 }
}

/// A tier with the given threshold fits the available memory: the usable
/// memory reaches the threshold. The smallest tier, with threshold 0, fits
/// on any system.
pub open spec fn fits(threshold_gb: nat, available_bytes: nat) -> bool {
    usable_bytes(available_bytes) >= threshold_gb * (GIB as nat)
}

/// Whether a model tier is recommended for the system.
pub fn is_recommended(model: &ModelTier, sys: &SystemContext) -> (r: bool)
    ensures
        r == fits(model.ram_threshold_gb as nat, sys.ram_available_bytes as nat),
{
    let usable: u64 = if sys.ram_available_bytes >= GIB { sys.ram_available_bytes - GIB } else { 0 };
    let need: u128 = model.ram_threshold_gb as u128 * 1073741824u128;
    usable as u128 >= need
}

/// The index of the tier selected for the available memory: the largest
/// tier that fits, or the smallest when none does.
pub open spec fn selected_tier(available_bytes: nat) -> int {
    if fits(32, available_bytes) {
        4
    } else if fits(16, available_bytes) {
        3
    } else if fits(8, available_bytes) {
        2
    } else if fits(4, available_bytes) {
        1
    } else {
        0
    }
}

/// The model id selected for the system: the largest tier that fits, or the
/// smallest.
pub fn select_model_for(sys: &SystemContext) -> (r: String)
    ensures
        r@ == tier_table()[selected_tier(sys.ram_available_bytes as nat)].1,
{
    let models = all_models();
    let mut i: usize = models.len();
    while i > 0
        invariant
            0 <= i <= 5,
            models@.len() == 5,
            forall|k: int| 0 <= k < 5 ==> is_tier_row(#[trigger] models@[k], tier_table()[k]),
            forall|k: int| i <= k < 5 ==> !fits(tier_table()[k].3, sys.ram_available_bytes as nat),
        decreases i,
    {
        if is_recommended(&models[i - 1], sys) {
            return String::from_str(models[i - 1].model_id);
        }
        i = i - 1;
    }
    String::from_str(models[0].model_id)
}

/// The selected tier fits, no larger tier fits, more memory never selects
/// a smaller tier, and the smallest tier fits on any system.
pub proof fn law_selection(available: nat, more: nat)
    requires
        available <= more,
    ensures
        fits(tier_table()[selected_tier(available)].3, available),
        forall|k: int| selected_tier(available) < k < 5 ==> !fits(#[trigger] tier_table()[k].3, available),
        selected_tier(available) <= selected_tier(more),
        fits(0, available),
{
}

/// `x` as an `f64`, then divided by a GiB and printed with one decimal.
pub open spec fn gib_text(signed_negative: bool, magnitude: nat) -> Seq<char> {
    if signed_negative {
        seq!['-'] + one_decimal(f64_value(magnitude), GIB as nat)
    } else {
        one_decimal(f64_value(magnitude), GIB as nat)
    }
}

/// The status line: memory in use and in total in GiB with one decimal
/// (both computed as `f64` GiB values and subtracted as such), the CPU
/// cores, and the GPU when known.
pub open spec fn status_text(sys: SystemContext) -> Seq<char> {
    let t = f64_value(sys.ram_total_bytes as nat);
    let a = f64_value(sys.ram_available_bytes as nat);
    let used = if t >= a {
        gib_text(false, (t - a) as nat)
    } else {
        gib_text(true, (a - t) as nat)
    };
    "RAM: "@ + used + "/"@ + one_decimal(t, GIB as nat) + " GB, CPU: "@ + decimal(sys.cpu_cores as nat)
        + " cores"@ + match sys.gpu_info {
        Some(g) => ", GPU: "@ + g@,
        None => Seq::empty(),
    }
}

impl SystemContext {
    /// The status line shown for the system.
    pub fn status_string(&self) -> (r: String)
        ensures
            r@ == status_text(*self),
    {
        let t = f64_of(self.ram_total_bytes as u128);
        let a = f64_of(self.ram_available_bytes as u128);
        let mut out: Vec<char> = Vec::new();
        append_str(&mut out, "RAM: ");
        if t >= a {
            let d = f64_of(t - a);
            let u = one_decimal_chars(d, GIB as u128);
            append_chars(&mut out, &u);
        } else {
            let d = f64_of(a - t);
            out.push('-');
            let u = one_decimal_chars(d, GIB as u128);
            append_chars(&mut out, &u);
        }
        append_str(&mut out, "/");
        let tt = one_decimal_chars(t, GIB as u128);
        append_chars(&mut out, &tt);
        append_str(&mut out, " GB, CPU: ");
        let c = decimal_chars(self.cpu_cores as u128);
        append_chars(&mut out, &c);
        append_str(&mut out, " cores");
        match &self.gpu_info {
            Some(g) => {
                append_str(&mut out, ", GPU: ");
                append_str(&mut out, g.as_str());
            },
            None => {},
        }
        string_of(&out)
    }
}

} // verus!
