//! Configurations of the genus-13 topologies (independent surfaces, and a
//! keyring of a central ring with twelve satellites) with their stream
//! counts and parameter estimates, and the twelve specialised satellite
//! domains. Real-valued settings (dropout, spiral winding, junction
//! weight) are carried as the bits of their `f64` values.

use vstd::prelude::*;
use crate::text::{decimal, decimal_text, pad_right, push_padded, push_str};

verus! {

/// Domain of a satellite torus.
#[derive(Debug, Clone, Copy, PartialEq, Eq, Structural)]
pub enum SatelliteDomain {
    /// Episodic and working memory
    Memory,
    /// Action planning and goal decomposition
    Planning,
    /// Linguistic processing
    Language,
    /// Spatial reasoning and geometry
    Spatial,
    /// Logical deduction
    Reasoning,
    /// Valence and motivation signals
    Emotional,
    /// Pattern recognition and analogy
    Pattern,
    /// Causal inference and counterfactuals
    Causal,
    /// Novel combination and imagination
    Creative,
    /// Self-monitoring and confidence
    MetaCognition,
    /// Sensory integration
    Perception,
    /// Motor planning and execution
    Action,
}

/// Position of a domain in declaration order.
pub open spec fn domain_index(d: SatelliteDomain) -> usize {
    match d {
        SatelliteDomain::Memory => 0,
        SatelliteDomain::Planning => 1,
        SatelliteDomain::Language => 2,
        SatelliteDomain::Spatial => 3,
        SatelliteDomain::Reasoning => 4,
        SatelliteDomain::Emotional => 5,
        SatelliteDomain::Pattern => 6,
        SatelliteDomain::Causal => 7,
        SatelliteDomain::Creative => 8,
        SatelliteDomain::MetaCognition => 9,
        SatelliteDomain::Perception => 10,
        SatelliteDomain::Action => 11,
    }
}

/// Name of a domain (its variant name).
pub open spec fn domain_name(d: SatelliteDomain) -> Seq<char> {
    match d {
        SatelliteDomain::Memory => "Memory"@,
        SatelliteDomain::Planning => "Planning"@,
        SatelliteDomain::Language => "Language"@,
        SatelliteDomain::Spatial => "Spatial"@,
        SatelliteDomain::Reasoning => "Reasoning"@,
        SatelliteDomain::Emotional => "Emotional"@,
        SatelliteDomain::Pattern => "Pattern"@,
        SatelliteDomain::Causal => "Causal"@,
        SatelliteDomain::Creative => "Creative"@,
        SatelliteDomain::MetaCognition => "MetaCognition"@,
        SatelliteDomain::Perception => "Perception"@,
        SatelliteDomain::Action => "Action"@,
    }
}

impl SatelliteDomain {
    /// All domains in declaration order.
    pub fn all() -> (r: [SatelliteDomain; 12])
        ensures
            forall|i: int| 0 <= i < 12 ==> domain_index(#[trigger] r@[i]) == i,
    {
        [
            SatelliteDomain::Memory,
            SatelliteDomain::Planning,
            SatelliteDomain::Language,
            SatelliteDomain::Spatial,
            SatelliteDomain::Reasoning,
            SatelliteDomain::Emotional,
            SatelliteDomain::Pattern,
            SatelliteDomain::Causal,
            SatelliteDomain::Creative,
            SatelliteDomain::MetaCognition,
            SatelliteDomain::Perception,
            SatelliteDomain::Action,
        ]
    }

    /// Position of this domain in declaration order.
    pub fn index(&self) -> (i: usize)
        ensures
            i == domain_index(*self),
    {
        match self {
            SatelliteDomain::Memory => 0,
            SatelliteDomain::Planning => 1,
            SatelliteDomain::Language => 2,
            SatelliteDomain::Spatial => 3,
            SatelliteDomain::Reasoning => 4,
            SatelliteDomain::Emotional => 5,
            SatelliteDomain::Pattern => 6,
            SatelliteDomain::Causal => 7,
            SatelliteDomain::Creative => 8,
            SatelliteDomain::MetaCognition => 9,
            SatelliteDomain::Perception => 10,
            SatelliteDomain::Action => 11,
        }
    }

    /// Name of this domain.
    pub fn name(&self) -> (s: &'static str)
        ensures
            s@ == domain_name(*self),
    {
        match self {
            SatelliteDomain::Memory => "Memory",
            SatelliteDomain::Planning => "Planning",
            SatelliteDomain::Language => "Language",
            SatelliteDomain::Spatial => "Spatial",
            SatelliteDomain::Reasoning => "Reasoning",
            SatelliteDomain::Emotional => "Emotional",
            SatelliteDomain::Pattern => "Pattern",
            SatelliteDomain::Causal => "Causal",
            SatelliteDomain::Creative => "Creative",
            SatelliteDomain::MetaCognition => "MetaCognition",
            SatelliteDomain::Perception => "Perception",
            SatelliteDomain::Action => "Action",
        }
    }
}

/// The index of a domain is its position in `all()`: distinct domains have
/// distinct indices, all below twelve.
pub proof fn law_domain_index_injective(a: SatelliteDomain, b: SatelliteDomain)
    ensures
        domain_index(a) < 12,
        domain_index(a) == domain_index(b) ==> a == b,
{
}

/// The vocabulary size the parameter estimates assume.
pub const VOCAB_SIZE: u64 = 100_277;

/// The bits of the golden ratio 1.618033988749895 as an `f64`.
pub const GOLDEN_RATIO_BITS: u64 = 0x3FF9_E377_9B97_F4A8;

/// The bits of the `f64` value 0.1.
pub const DROPOUT_TENTH_BITS: u64 = 0x3FB9_9999_9999_999A;

/// The bits of the `f64` value 0.05.
pub const DROPOUT_TWENTIETH_BITS: u64 = 0x3FA9_9999_9999_999A;

/// The bits of the `f64` value 0.3.
pub const JUNCTION_ALPHA_BITS: u64 = 0x3FD3_3333_3333_3333;

/// Configuration of a genus-N multi-surface torus.
#[derive(Debug, Clone, Copy, PartialEq, Eq, Structural)]
pub struct Genus13Config {
    /// Number of toroidal surfaces (genus of the manifold)
    pub genus: usize,
    /// Model dimension per surface
    pub d_model: usize,
    /// Feed-forward dimension per surface
    pub d_ff: usize,
    /// Number of attention heads per stream
    pub n_heads: usize,
    /// Number of transformer layers
    pub n_layers: usize,
    /// Grid size in major direction (per surface)
    pub n_major: usize,
    /// Grid size in minor direction (per surface)
    pub n_minor: usize,
    /// Cross-surface bridge dimension
    pub bridge_dim: usize,
    /// Whether to use cross-surface coherence
    pub use_cross_surface_coherence: bool,
    /// How often (in layers) to apply cross-surface bridges
    pub bridge_every_n_layers: usize,
    /// Dropout probability (bits of an `f64`)
    pub dropout_bits: u64,
    /// Golden ratio spiral winding per surface (bits of an `f64`)
    pub base_spiral_winding_bits: u64,
}

/// Parameters of the attention projections per layer: four d×d matrices per stream.
pub open spec fn g13_attn(c: Genus13Config) -> int {
    c.d_model * c.d_model * 4 * (c.genus * 8)
}

/// Parameters of the feed-forward blocks per layer: two d×ff matrices per surface.
pub open spec fn g13_ff(c: Genus13Config) -> int {
    c.d_model * c.d_ff * 2 * c.genus
}

/// Parameters of the cross-surface bridges per layer, spread over the
/// layers between bridges (integer division).
pub open spec fn g13_bridge(c: Genus13Config) -> int {
    if c.use_cross_surface_coherence {
        (c.genus * c.genus * c.bridge_dim * c.bridge_dim) / (c.bridge_every_n_layers as int)
    } else {
        0
    }
}

/// Parameters of the layer norms per layer.
pub open spec fn g13_norm(c: Genus13Config) -> int {
    2 * c.d_model * c.genus
}

/// Parameters of a layer.
pub open spec fn g13_per_layer(c: Genus13Config) -> int {
    g13_attn(c) + g13_ff(c) + g13_bridge(c) + g13_norm(c)
}

/// The estimated parameter count of a multi-surface configuration: the
/// layer stack, as the documented preset figures count it (about 15.7M for
/// nano); the shared token embeddings and output projection are not counted.
pub open spec fn genus13_params(c: Genus13Config) -> int {
    g13_per_layer(c) * c.n_layers
}

/// Every step of the estimate fits the machine integers (the estimate
/// overflows otherwise).
pub open spec fn genus13_fits(c: Genus13Config) -> bool {
    let d = c.d_model as int;
    let g = c.genus as int;
    let s = g * 8;
    let b = c.bridge_dim as int;
    let m = u64::MAX as int;
    &&& s <= usize::MAX
    &&& d * d <= m && d * d * 4 <= m && d * d * 4 * s <= m
    &&& d * c.d_ff <= m && d * c.d_ff * 2 <= m && d * c.d_ff * 2 * g <= m
    &&& c.use_cross_surface_coherence ==> (g * g <= m && g * g * b <= m && g * g * b * b <= m
        && c.bridge_every_n_layers > 0)
    &&& 2 * d <= m && 2 * d * g <= m
    &&& g13_attn(c) + g13_ff(c) <= m && g13_attn(c) + g13_ff(c) + g13_bridge(c) <= m
    &&& g13_per_layer(c) <= m && genus13_params(c) <= m
}

/// The giant multi-surface configuration.
pub open spec fn genus13_giant() -> Genus13Config {
    Genus13Config {
        genus: 13,
        d_model: 8192,
        d_ff: 32768,
        n_heads: 64,
        n_layers: 64,
        n_major: 128,
        n_minor: 64,
        bridge_dim: 2048,
        use_cross_surface_coherence: true,
        bridge_every_n_layers: 4,
        dropout_bits: DROPOUT_TWENTIETH_BITS,
        base_spiral_winding_bits: GOLDEN_RATIO_BITS,
    }
}

impl Genus13Config {
    /// Total number of parallel attention streams (genus × 8).
    pub fn total_streams(&self) -> (n: usize)
        requires
            self.genus * 8 <= usize::MAX,
        ensures
            n == self.genus * 8,
    {
        self.genus * 8
    }

    /// Sequence length per surface.
    pub fn seq_len(&self) -> (n: usize)
        requires
            self.n_major * self.n_minor <= usize::MAX,
        ensures
            n == self.n_major * self.n_minor,
    {
        self.n_major * self.n_minor
    }

    /// Estimated parameter count of the layer stack: per layer the
    /// attention projections, feed-forward blocks, bridges and norms, times
    /// the number of layers (about 15.7M for nano, as documented).
    pub fn param_count(&self) -> (p: u64)
        requires
            genus13_fits(*self),
        ensures
            p == genus13_params(*self),
    {
        let d = self.d_model as u64;
        let ff = self.d_ff as u64;
        let streams = self.total_streams() as u64;
        let layers = self.n_layers as u64;
        let genus = self.genus as u64;
        let attn_per_layer = d * d * 4 * streams;
        let ff_per_layer = d * ff * 2 * genus;
        let bridge_per_layer = if self.use_cross_surface_coherence {
            let b = self.bridge_dim as u64;
            genus * genus * b * b / self.bridge_every_n_layers as u64
        } else {
            0
        };
        let norm_per_layer = 2 * d * genus;
        let per_layer = attn_per_layer + ff_per_layer + bridge_per_layer + norm_per_layer;
        per_layer * layers
    }

    /// The parameter count when every step of the estimate fits the
    /// machine integers, `None` when one would overflow (the estimate
    /// itself would then fail).
    pub fn checked_param_count(&self) -> (r: Option<u64>)
        ensures
            genus13_fits(*self) ==> r == Some(genus13_params(*self) as u64),
            !genus13_fits(*self) ==> r is None,
    {
        let s = match self.genus.checked_mul(8) { Some(v) => v, None => return None };
        let d = self.d_model as u64;
        let ff = self.d_ff as u64;
        let g = self.genus as u64;
        let dd = match d.checked_mul(d) { Some(v) => v, None => return None };
        let dd4 = match dd.checked_mul(4) { Some(v) => v, None => return None };
        let attn = match dd4.checked_mul(s as u64) { Some(v) => v, None => return None };
        let dff = match d.checked_mul(ff) { Some(v) => v, None => return None };
        let dff2 = match dff.checked_mul(2) { Some(v) => v, None => return None };
        let ffl = match dff2.checked_mul(g) { Some(v) => v, None => return None };
        let bridge = if self.use_cross_surface_coherence {
            let b = self.bridge_dim as u64;
            let gg = match g.checked_mul(g) { Some(v) => v, None => return None };
            let ggb = match gg.checked_mul(b) { Some(v) => v, None => return None };
            let ggbb = match ggb.checked_mul(b) { Some(v) => v, None => return None };
            if self.bridge_every_n_layers == 0 {
                return None;
            }
            ggbb / self.bridge_every_n_layers as u64
        } else {
            0
        };
        let d2 = match 2u64.checked_mul(d) { Some(v) => v, None => return None };
        let norm = match d2.checked_mul(g) { Some(v) => v, None => return None };
        let a1 = match attn.checked_add(ffl) { Some(v) => v, None => return None };
        let a2 = match a1.checked_add(bridge) { Some(v) => v, None => return None };
        let per_layer = match a2.checked_add(norm) { Some(v) => v, None => return None };
        match per_layer.checked_mul(self.n_layers as u64) {
            Some(_) => Some(self.param_count()),
            None => None,
        }
    }

    /// nano: a single surface (about 15.7M parameters).
    pub fn nano() -> (c: Self)
        ensures
            c == (Genus13Config {
                genus: 1,
                d_model: 256,
                d_ff: 1024,
                n_heads: 8,
                n_layers: 6,
                n_major: 32,
                n_minor: 16,
                bridge_dim: 256,
                use_cross_surface_coherence: false,
                bridge_every_n_layers: 1,
                dropout_bits: DROPOUT_TENTH_BITS,
                base_spiral_winding_bits: GOLDEN_RATIO_BITS,
            }),
    {
        Genus13Config {
            genus: 1,
            d_model: 256,
            d_ff: 1024,
            n_heads: 8,
            n_layers: 6,
            n_major: 32,
            n_minor: 16,
            bridge_dim: 256,
            use_cross_surface_coherence: false,
            bridge_every_n_layers: 1,
            dropout_bits: DROPOUT_TENTH_BITS,
            base_spiral_winding_bits: GOLDEN_RATIO_BITS,
        }
    }

    /// tiny: a single surface (about 424M parameters).
    pub fn tiny() -> (c: Self)
        ensures
            c == (Genus13Config {
                genus: 1,
                d_model: 768,
                d_ff: 3072,
                n_heads: 12,
                n_layers: 12,
                n_major: 64,
                n_minor: 32,
                bridge_dim: 768,
                use_cross_surface_coherence: false,
                bridge_every_n_layers: 1,
                dropout_bits: DROPOUT_TENTH_BITS,
                base_spiral_winding_bits: GOLDEN_RATIO_BITS,
            }),
    {
        Genus13Config {
            genus: 1,
            d_model: 768,
            d_ff: 3072,
            n_heads: 12,
            n_layers: 12,
            n_major: 64,
            n_minor: 32,
            bridge_dim: 768,
            use_cross_surface_coherence: false,
            bridge_every_n_layers: 1,
            dropout_bits: DROPOUT_TENTH_BITS,
            base_spiral_winding_bits: GOLDEN_RATIO_BITS,
        }
    }

    /// small: three surfaces (about 9.7B parameters).
    pub fn small() -> (c: Self)
        ensures
            c == (Genus13Config {
                genus: 3,
                d_model: 2048,
                d_ff: 8192,
                n_heads: 16,
                n_layers: 24,
                n_major: 64,
                n_minor: 32,
                bridge_dim: 512,
                use_cross_surface_coherence: true,
                bridge_every_n_layers: 4,
                dropout_bits: DROPOUT_TENTH_BITS,
                base_spiral_winding_bits: GOLDEN_RATIO_BITS,
            }),
    {
        Genus13Config {
            genus: 3,
            d_model: 2048,
            d_ff: 8192,
            n_heads: 16,
            n_layers: 24,
            n_major: 64,
            n_minor: 32,
            bridge_dim: 512,
            use_cross_surface_coherence: true,
            bridge_every_n_layers: 4,
            dropout_bits: DROPOUT_TENTH_BITS,
            base_spiral_winding_bits: GOLDEN_RATIO_BITS,
        }
    }

    /// medium: seven surfaces (about 120B parameters).
    pub fn medium() -> (c: Self)
        ensures
            c == (Genus13Config {
                genus: 7,
                d_model: 4096,
                d_ff: 16384,
                n_heads: 32,
                n_layers: 32,
                n_major: 128,
                n_minor: 64,
                bridge_dim: 1024,
                use_cross_surface_coherence: true,
                bridge_every_n_layers: 4,
                dropout_bits: DROPOUT_TWENTIETH_BITS,
                base_spiral_winding_bits: GOLDEN_RATIO_BITS,
            }),
    {
        Genus13Config {
            genus: 7,
            d_model: 4096,
            d_ff: 16384,
            n_heads: 32,
            n_layers: 32,
            n_major: 128,
            n_minor: 64,
            bridge_dim: 1024,
            use_cross_surface_coherence: true,
            bridge_every_n_layers: 4,
            dropout_bits: DROPOUT_TWENTIETH_BITS,
            base_spiral_winding_bits: GOLDEN_RATIO_BITS,
        }
    }

    /// large: thirteen surfaces, 48 layers (about 1.06T parameters).
    pub fn large() -> (c: Self)
        ensures
            c == (Genus13Config {
                genus: 13,
                d_model: 8192,
                d_ff: 32768,
                n_heads: 64,
                n_layers: 48,
                n_major: 128,
                n_minor: 64,
                bridge_dim: 2048,
                use_cross_surface_coherence: true,
                bridge_every_n_layers: 4,
                dropout_bits: DROPOUT_TWENTIETH_BITS,
                base_spiral_winding_bits: GOLDEN_RATIO_BITS,
            }),
    {
        Genus13Config {
            genus: 13,
            d_model: 8192,
            d_ff: 32768,
            n_heads: 64,
            n_layers: 48,
            n_major: 128,
            n_minor: 64,
            bridge_dim: 2048,
            use_cross_surface_coherence: true,
            bridge_every_n_layers: 4,
            dropout_bits: DROPOUT_TWENTIETH_BITS,
            base_spiral_winding_bits: GOLDEN_RATIO_BITS,
        }
    }

    /// giant: thirteen surfaces, 64 layers (about 1.82T parameters).
    pub fn giant() -> (c: Self)
        ensures
            c == genus13_giant(),
    {
        Genus13Config {
            genus: 13,
            d_model: 8192,
            d_ff: 32768,
            n_heads: 64,
            n_layers: 64,
            n_major: 128,
            n_minor: 64,
            bridge_dim: 2048,
            use_cross_surface_coherence: true,
            bridge_every_n_layers: 4,
            dropout_bits: DROPOUT_TWENTIETH_BITS,
            base_spiral_winding_bits: GOLDEN_RATIO_BITS,
        }
    }
}

impl Default for Genus13Config {
    fn default() -> (c: Self)
        ensures
            c == genus13_giant(),
    {
        Genus13Config::giant()
    }
}

/// Configuration of the keyring topology: a central ring and satellites.
#[derive(Debug, Clone, Copy, PartialEq, Eq, Structural)]
pub struct KeyringConfig {
    /// Central ring model dimension
    pub ring_d_model: usize,
    /// Central ring feed-forward dimension
    pub ring_d_ff: usize,
    /// Central ring attention heads (per stream, 8 streams)
    pub ring_n_heads: usize,
    /// Central ring layers
    pub ring_n_layers: usize,
    /// Satellite torus model dimension
    pub sat_d_model: usize,
    /// Satellite feed-forward dimension
    pub sat_d_ff: usize,
    /// Satellite attention heads (per stream, 8 streams)
    pub sat_n_heads: usize,
    /// Satellite layers
    pub sat_n_layers: usize,
    /// Number of satellites
    pub n_satellites: usize,
    /// Junction dimension (transfer between ring and satellite)
    pub junction_dim: usize,
    /// Grid size for the central ring (major direction)
    pub ring_n_major: usize,
    /// Grid size for the central ring (minor direction)
    pub ring_n_minor: usize,
    /// Grid size for satellite tori (major direction)
    pub sat_n_major: usize,
    /// Grid size for satellite tori (minor direction)
    pub sat_n_minor: usize,
    /// Junction transfer weight (bits of an `f64`)
    pub junction_alpha_bits: u64,
    /// Dropout (bits of an `f64`)
    pub dropout_bits: u64,
}

/// Parameters of the central ring: eight streams of four projections,
/// the feed-forward block and norms, per layer.
pub open spec fn ring_params(c: KeyringConfig) -> int {
    c.ring_d_model * c.ring_d_model * 4 * 8 * c.ring_n_layers + c.ring_d_model * c.ring_d_ff * 2
        * c.ring_n_layers + 2 * c.ring_d_model * c.ring_n_layers
}

/// Parameters of the satellites, all of them.
pub open spec fn satellite_params(c: KeyringConfig) -> int {
    c.sat_d_model * c.sat_d_model * 4 * 8 * c.sat_n_layers * c.n_satellites + c.sat_d_model
        * c.sat_d_ff * 2 * c.sat_n_layers * c.n_satellites + 2 * c.sat_d_model * c.sat_n_layers
        * c.n_satellites
}

/// Parameters of the junctions: ring→junction→satellite and back, per satellite.
pub open spec fn junction_params(c: KeyringConfig) -> int {
    (c.ring_d_model * c.junction_dim + c.junction_dim * c.sat_d_model + c.sat_d_model * c.junction_dim
        + c.junction_dim * c.ring_d_model) * c.n_satellites
}

/// Parameters of the embeddings and the output projection (ring dimension).
pub open spec fn keyring_io_params(c: KeyringConfig) -> int {
    VOCAB_SIZE * c.ring_d_model + (c.ring_n_major * c.ring_n_minor) * c.ring_d_model + c.ring_d_model
        * VOCAB_SIZE
}

/// The estimated parameter count of a keyring configuration.
pub open spec fn keyring_params(c: KeyringConfig) -> int {
    ring_params(c) + satellite_params(c) + junction_params(c) + keyring_io_params(c)
}

/// Every step of the keyring estimate fits the machine integers.
pub open spec fn keyring_fits(c: KeyringConfig) -> bool {
    let rd = c.ring_d_model as int;
    let rff = c.ring_d_ff as int;
    let rl = c.ring_n_layers as int;
    let sd = c.sat_d_model as int;
    let sff = c.sat_d_ff as int;
    let sl = c.sat_n_layers as int;
    let ns = c.n_satellites as int;
    let jd = c.junction_dim as int;
    let m = u64::MAX as int;
    &&& rd * rd <= m && rd * rd * 4 <= m && rd * rd * 4 * 8 <= m && rd * rd * 4 * 8 * rl <= m
    &&& rd * rff <= m && rd * rff * 2 <= m && rd * rff * 2 * rl <= m
    &&& 2 * rd <= m && 2 * rd * rl <= m
    &&& sd * sd <= m && sd * sd * 4 <= m && sd * sd * 4 * 8 <= m && sd * sd * 4 * 8 * sl <= m
        && sd * sd * 4 * 8 * sl * ns <= m
    &&& sd * sff <= m && sd * sff * 2 <= m && sd * sff * 2 * sl <= m && sd * sff * 2 * sl * ns <= m
    &&& 2 * sd <= m && 2 * sd * sl <= m && 2 * sd * sl * ns <= m
    &&& rd * jd <= m && jd * sd <= m && sd * jd <= m && jd * rd <= m
    &&& rd * jd + jd * sd <= m && rd * jd + jd * sd + sd * jd <= m
    &&& rd * jd + jd * sd + sd * jd + jd * rd <= m && junction_params(c) <= m
    &&& VOCAB_SIZE * rd <= m && c.ring_n_major * c.ring_n_minor <= usize::MAX
    &&& (c.ring_n_major * c.ring_n_minor) * rd <= m
    &&& VOCAB_SIZE * rd + (c.ring_n_major * c.ring_n_minor) * rd <= m
    &&& rd * VOCAB_SIZE <= m
    &&& rd * rd * 4 * 8 * rl + rd * rff * 2 * rl <= m && ring_params(c) <= m
    &&& ring_params(c) + sd * sd * 4 * 8 * sl * ns <= m
    &&& ring_params(c) + sd * sd * 4 * 8 * sl * ns + sd * sff * 2 * sl * ns <= m
    &&& ring_params(c) + satellite_params(c) <= m
    &&& ring_params(c) + satellite_params(c) + junction_params(c) <= m
    &&& ring_params(c) + satellite_params(c) + junction_params(c) + VOCAB_SIZE * rd + (c.ring_n_major
        * c.ring_n_minor) * rd <= m
    &&& keyring_params(c) <= m
    &&& 8 + ns * 8 <= usize::MAX && ns * 8 <= usize::MAX
}

/// The target keyring configuration.
pub open spec fn keyring_target() -> KeyringConfig {
    KeyringConfig {
        ring_d_model: 8192,
        ring_d_ff: 32768,
        ring_n_heads: 64,
        ring_n_layers: 64,
        sat_d_model: 8192,
        sat_d_ff: 32768,
        sat_n_heads: 64,
        sat_n_layers: 48,
        n_satellites: 12,
        junction_dim: 2048,
        ring_n_major: 128,
        ring_n_minor: 64,
        sat_n_major: 64,
        sat_n_minor: 32,
        junction_alpha_bits: JUNCTION_ALPHA_BITS,
        dropout_bits: DROPOUT_TWENTIETH_BITS,
    }
}

impl KeyringConfig {
    /// Total streams: eight for the ring and eight per satellite.
    pub fn total_streams(&self) -> (n: usize)
        requires
            self.n_satellites * 8 + 8 <= usize::MAX,
        ensures
            n == 8 + self.n_satellites * 8,
    {
        8 + self.n_satellites * 8
    }

    /// Genus of the keyring surface: the ring and each satellite.
    pub fn genus(&self) -> (n: usize)
        requires
            self.n_satellites < usize::MAX,
        ensures
            n == 1 + self.n_satellites,
    {
        1 + self.n_satellites
    }

    /// Estimated total parameter count: ring, satellites, junctions,
    /// embeddings and the output projection.
    pub fn param_count(&self) -> (p: u64)
        requires
            keyring_fits(*self),
        ensures
            p == keyring_params(*self),
    {
        let rd = self.ring_d_model as u64;
        let rff = self.ring_d_ff as u64;
        let rl = self.ring_n_layers as u64;
        let sd = self.sat_d_model as u64;
        let sff = self.sat_d_ff as u64;
        let sl = self.sat_n_layers as u64;
        let ns = self.n_satellites as u64;
        let jd = self.junction_dim as u64;

        let ring_attn = rd * rd * 4 * 8 * rl;
        let ring_ff = rd * rff * 2 * rl;
        let ring_norm = 2 * rd * rl;

        let sat_attn = sd * sd * 4 * 8 * sl * ns;
        let sat_ff = sd * sff * 2 * sl * ns;
        let sat_norm = 2 * sd * sl * ns;

        let junction_per_sat = rd * jd + jd * sd + sd * jd + jd * rd;
        let junctions = junction_per_sat * ns;

        let embeddings = VOCAB_SIZE * rd + (self.ring_n_major * self.ring_n_minor) as u64 * rd;
        let output = rd * VOCAB_SIZE;

        ring_attn + ring_ff + ring_norm + sat_attn + sat_ff + sat_norm + junctions + embeddings
            + output
    }

    /// The parameter count when every step of the estimate fits the
    /// machine integers, `None` when one would overflow.
    pub fn checked_param_count(&self) -> (r: Option<u64>)
        ensures
            keyring_fits(*self) ==> r == Some(keyring_params(*self) as u64),
            !keyring_fits(*self) ==> r is None,
    {
        let rd = self.ring_d_model as u64;
        let rff = self.ring_d_ff as u64;
        let rl = self.ring_n_layers as u64;
        let sd = self.sat_d_model as u64;
        let sff = self.sat_d_ff as u64;
        let sl = self.sat_n_layers as u64;
        let ns = self.n_satellites as u64;
        let jd = self.junction_dim as u64;
        let m = u64::MAX;
        let r1 = match rd.checked_mul(rd) { Some(v) => v, None => return None };
        let r2 = match r1.checked_mul(4) { Some(v) => v, None => return None };
        let r3 = match r2.checked_mul(8) { Some(v) => v, None => return None };
        let ring_attn = match r3.checked_mul(rl) { Some(v) => v, None => return None };
        let f1 = match rd.checked_mul(rff) { Some(v) => v, None => return None };
        let f2 = match f1.checked_mul(2) { Some(v) => v, None => return None };
        let ring_ff = match f2.checked_mul(rl) { Some(v) => v, None => return None };
        let n1 = match 2u64.checked_mul(rd) { Some(v) => v, None => return None };
        let ring_norm = match n1.checked_mul(rl) { Some(v) => v, None => return None };
        let s1 = match sd.checked_mul(sd) { Some(v) => v, None => return None };
        let s2 = match s1.checked_mul(4) { Some(v) => v, None => return None };
        let s3 = match s2.checked_mul(8) { Some(v) => v, None => return None };
        let s4 = match s3.checked_mul(sl) { Some(v) => v, None => return None };
        let sat_attn = match s4.checked_mul(ns) { Some(v) => v, None => return None };
        let t1 = match sd.checked_mul(sff) { Some(v) => v, None => return None };
        let t2 = match t1.checked_mul(2) { Some(v) => v, None => return None };
        let t3 = match t2.checked_mul(sl) { Some(v) => v, None => return None };
        let sat_ff = match t3.checked_mul(ns) { Some(v) => v, None => return None };
        let u1 = match 2u64.checked_mul(sd) { Some(v) => v, None => return None };
        let u2 = match u1.checked_mul(sl) { Some(v) => v, None => return None };
        let sat_norm = match u2.checked_mul(ns) { Some(v) => v, None => return None };
        let j1 = match rd.checked_mul(jd) { Some(v) => v, None => return None };
        let j2 = match jd.checked_mul(sd) { Some(v) => v, None => return None };
        let j3 = match sd.checked_mul(jd) { Some(v) => v, None => return None };
        let j4 = match jd.checked_mul(rd) { Some(v) => v, None => return None };
        let k1 = match j1.checked_add(j2) { Some(v) => v, None => return None };
        let k2 = match k1.checked_add(j3) { Some(v) => v, None => return None };
        let per_sat = match k2.checked_add(j4) { Some(v) => v, None => return None };
        let junctions = match per_sat.checked_mul(ns) { Some(v) => v, None => return None };
        let vd = match VOCAB_SIZE.checked_mul(rd) { Some(v) => v, None => return None };
        let grid = match self.ring_n_major.checked_mul(self.ring_n_minor) { Some(v) => v, None => return None };
        let gd = match (grid as u64).checked_mul(rd) { Some(v) => v, None => return None };
        let emb = match vd.checked_add(gd) { Some(v) => v, None => return None };
        let out = match rd.checked_mul(VOCAB_SIZE) { Some(v) => v, None => return None };
        let c1 = match ring_attn.checked_add(ring_ff) { Some(v) => v, None => return None };
        let ring = match c1.checked_add(ring_norm) { Some(v) => v, None => return None };
        let c2 = match ring.checked_add(sat_attn) { Some(v) => v, None => return None };
        let c3 = match c2.checked_add(sat_ff) { Some(v) => v, None => return None };
        let c4 = match c3.checked_add(sat_norm) { Some(v) => v, None => return None };
        let c5 = match c4.checked_add(junctions) { Some(v) => v, None => return None };
        let c6 = match c5.checked_add(emb) { Some(v) => v, None => return None };
        let _total = match c6.checked_add(out) { Some(v) => v, None => return None };
        let st = match ns.checked_mul(8) { Some(v) => v, None => return None };
        if st > m - 8 || st as u128 > usize::MAX as u128 - 8 {
            return None;
        }
        Some(self.param_count())
    }

    /// The nano keyring, for testing.
    pub fn nano() -> (c: Self)
        ensures
            c == (KeyringConfig {
                ring_d_model: 256,
                ring_d_ff: 1024,
                ring_n_heads: 8,
                ring_n_layers: 6,
                sat_d_model: 128,
                sat_d_ff: 512,
                sat_n_heads: 4,
                sat_n_layers: 4,
                n_satellites: 12,
                junction_dim: 64,
                ring_n_major: 32,
                ring_n_minor: 16,
                sat_n_major: 16,
                sat_n_minor: 8,
                junction_alpha_bits: JUNCTION_ALPHA_BITS,
                dropout_bits: DROPOUT_TENTH_BITS,
            }),
    {
        KeyringConfig {
            ring_d_model: 256,
            ring_d_ff: 1024,
            ring_n_heads: 8,
            ring_n_layers: 6,
            sat_d_model: 128,
            sat_d_ff: 512,
            sat_n_heads: 4,
            sat_n_layers: 4,
            n_satellites: 12,
            junction_dim: 64,
            ring_n_major: 32,
            ring_n_minor: 16,
            sat_n_major: 16,
            sat_n_minor: 8,
            junction_alpha_bits: JUNCTION_ALPHA_BITS,
            dropout_bits: DROPOUT_TENTH_BITS,
        }
    }

    /// The target 1.7T keyring configuration.
    pub fn keyring_1_7t() -> (c: Self)
        ensures
            c == keyring_target(),
    {
        KeyringConfig {
            ring_d_model: 8192,
            ring_d_ff: 32768,
            ring_n_heads: 64,
            ring_n_layers: 64,
            sat_d_model: 8192,
            sat_d_ff: 32768,
            sat_n_heads: 64,
            sat_n_layers: 48,
            n_satellites: 12,
            junction_dim: 2048,
            ring_n_major: 128,
            ring_n_minor: 64,
            sat_n_major: 64,
            sat_n_minor: 32,
            junction_alpha_bits: JUNCTION_ALPHA_BITS,
            dropout_bits: DROPOUT_TWENTIETH_BITS,
        }
    }
}

impl Default for KeyringConfig {
    fn default() -> (c: Self)
        ensures
            c == keyring_target(),
    {
        KeyringConfig::keyring_1_7t()
    }
}

/// The target configurations' estimates fit the machine integers: about
/// 2.24T parameters for the giant multi-surface layer stack and 1.72T for
/// the target keyring.
pub proof fn lemma_targets_fit()
    ensures
        genus13_fits(genus13_giant()),
        genus13_params(genus13_giant()) == 2_244_738_023_424,
        keyring_fits(keyring_target()),
        keyring_params(keyring_target()) == 1_720_512_757_760,
{
    let c = genus13_giant();
    assert(c.genus * c.genus * c.bridge_dim * c.bridge_dim == 708_837_376);
    assert(g13_bridge(c) == 177_209_344);
    assert(c.d_model * c.d_model == 67_108_864);
    assert(c.d_model * c.d_model * 4 == 268_435_456);
    assert(c.d_model * c.d_model * 4 * (c.genus * 8) == 27_917_287_424);
    assert(g13_attn(c) == 27_917_287_424);
    assert(c.d_model * c.d_ff == 268_435_456);
    assert(g13_ff(c) == 6_979_321_856);
    assert(g13_per_layer(c) == 35_074_031_616);
}

// ============================================================
// TOPOLOGY COMPARISON
// ============================================================

/// A row of the comparison table: its label, then the two cells, each
/// padded to twenty characters.
pub open spec fn table_row(label: Seq<char>, a: Seq<char>, b: Seq<char>) -> Seq<char> {
    label + pad_right(a, 20) + " │ "@ + pad_right(b, 20) + " ║\n"@
}

/// The comparison table of an independent-surfaces configuration and a
/// keyring configuration, given their parameter counts as text.
pub open spec fn comparison_text(
    g: Genus13Config,
    k: KeyringConfig,
    ip: Seq<char>,
    kp: Seq<char>,
) -> Seq<char> {
    "╔══════════════════════════════════════════════════════════════════╗\n║          GENUS-13 TOPOLOGY COMPARISON                          ║\n╠══════════════════════════════════════════════════════════════════╣\n║                  │ Independent Surfaces │ Keyring              ║\n╠══════════════════╪══════════════════════╪══════════════════════╣\n"@
        + table_row("║ Genus            │ "@, decimal_text(g.genus as nat), decimal_text((1 + k.n_satellites) as nat))
        + table_row("║ Total streams    │ "@, decimal_text((g.genus * 8) as nat), decimal_text((8 + k.n_satellites * 8) as nat))
        + table_row("║ Ring d_model     │ "@, decimal_text(g.d_model as nat), decimal_text(k.ring_d_model as nat))
        + table_row("║ Satellite d_model│ "@, decimal_text(g.d_model as nat), decimal_text(k.sat_d_model as nat))
        + table_row("║ Ring layers      │ "@, decimal_text(g.n_layers as nat), decimal_text(k.ring_n_layers as nat))
        + table_row("║ Satellite layers │ "@, decimal_text(g.n_layers as nat), decimal_text(k.sat_n_layers as nat))
        + table_row("║ Total params     │ "@, ip, kp)
        + table_row("║ Info flow        │ "@, "bridge every 4L"@, "junction every L"@)
        + table_row("║ Specialization   │ "@, "none (uniform)"@, "12 domains"@)
        + "╚══════════════════╧══════════════════════╧══════════════════════╝"@
}

/// Appends a row of the comparison table.
fn push_row(out: &mut String, label: &str, a: &str, b: &str)
    ensures
        final(out)@ == old(out)@ + table_row(label@, a@, b@),
{
    let ghost start = out@;
    push_str(out, label);
    push_padded(out, a, 20);
    push_str(out, " │ ");
    push_padded(out, b, 20);
    push_str(out, " ║\n");
    assert(out@ =~= start + table_row(label@, a@, b@));
}

/// A side-by-side comparison of the giant independent-surfaces topology and
/// the target keyring, given their parameter counts as human-readable text.
pub fn compare_topologies(indep_params: &str, keyring_params: &str) -> (r: String)
    ensures
        r@ == comparison_text(genus13_giant(), keyring_target(), indep_params@, keyring_params@),
{
    let indep = Genus13Config::giant();
    let keyring = KeyringConfig::keyring_1_7t();
    let mut s = String::new();
    push_str(&mut s, "╔══════════════════════════════════════════════════════════════════╗\n║          GENUS-13 TOPOLOGY COMPARISON                          ║\n╠══════════════════════════════════════════════════════════════════╣\n║                  │ Independent Surfaces │ Keyring              ║\n╠══════════════════╪══════════════════════╪══════════════════════╣\n");
    push_row(&mut s, "║ Genus            │ ", &decimal(indep.genus as u64), &decimal(keyring.genus() as u64));
    push_row(&mut s, "║ Total streams    │ ", &decimal(indep.total_streams() as u64), &decimal(keyring.total_streams() as u64));
    push_row(&mut s, "║ Ring d_model     │ ", &decimal(indep.d_model as u64), &decimal(keyring.ring_d_model as u64));
    push_row(&mut s, "║ Satellite d_model│ ", &decimal(indep.d_model as u64), &decimal(keyring.sat_d_model as u64));
    push_row(&mut s, "║ Ring layers      │ ", &decimal(indep.n_layers as u64), &decimal(keyring.ring_n_layers as u64));
    push_row(&mut s, "║ Satellite layers │ ", &decimal(indep.n_layers as u64), &decimal(keyring.sat_n_layers as u64));
    push_row(&mut s, "║ Total params     │ ", indep_params, keyring_params);
    push_row(&mut s, "║ Info flow        │ ", "bridge every 4L", "junction every L");
    push_row(&mut s, "║ Specialization   │ ", "none (uniform)", "12 domains");
    push_str(&mut s, "╚══════════════════╧══════════════════════╧══════════════════════╝");
    s
}

} // verus!
