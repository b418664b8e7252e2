//! Trade signals emitted by the detector.
use vstd::prelude::*;

verus! {

/// How strong a signal's edge is.
#[derive(Debug, Clone, Copy, PartialEq, Eq, Structural)]
pub enum SignalStrength {
    /// 0.3% - 0.5% edge
    Weak,
    /// 0.5% - 0.8% edge
    Moderate,
    /// > 0.8% edge
    Strong,
}

impl SignalStrength {
    /// Strength of an edge given as a fraction in billionths: above 0.8% is
    /// strong, from 0.5% up to 0.8% moderate, below that weak.
    pub open spec fn spec_from_edge(edge_pct: int) -> SignalStrength {
        if edge_pct > 8_000_000 {
            SignalStrength::Strong
        } else if edge_pct >= 5_000_000 {
            SignalStrength::Moderate
        } else {
            SignalStrength::Weak
        }
    }

    /// Determines the signal strength based on the edge percentage.
    pub fn from_edge(edge_pct: i64) -> (r: Self)
        ensures
            r == Self::spec_from_edge(edge_pct as int),
    {
        if edge_pct > 8_000_000 {
            SignalStrength::Strong
        } else if edge_pct >= 5_000_000 {
            SignalStrength::Moderate
        } else {
            SignalStrength::Weak
        }
    }
}

/// A trading opportunity on one contract. Prices and sizes are in millionths;
/// `edge_pct` is a fraction in billionths.
#[derive(Debug, Clone, PartialEq)]
pub enum ArbSignal {
    BuyYes {
        token_id: String,
        price: i64,
        edge_pct: i64,
        recommended_size_usdc: i64,
        reason: String,
        created_at_us: u64,
        staleness_ms: u64,
    },
    BuyNo {
        token_id: String,
        price: i64,
        edge_pct: i64,
        recommended_size_usdc: i64,
        reason: String,
        created_at_us: u64,
        staleness_ms: u64,
    },
    NoSignal,
}

impl ArbSignal {
    /// The edge of a buy signal, `None` for `NoSignal`.
    pub open spec fn edge_spec(&self) -> Option<int> {
        match self {
            ArbSignal::BuyYes { edge_pct, .. } => Some(*edge_pct as int),
            ArbSignal::BuyNo { edge_pct, .. } => Some(*edge_pct as int),
            ArbSignal::NoSignal => None,
        }
    }

    /// The token a buy signal is about, `None` for `NoSignal`.
    pub open spec fn token_spec(&self) -> Option<Seq<char>> {
        match self {
            ArbSignal::BuyYes { token_id, .. } => Some(token_id@),
            ArbSignal::BuyNo { token_id, .. } => Some(token_id@),
            ArbSignal::NoSignal => None,
        }
    }

    /// Returns the implied signal strength, if there is a signal.
    pub fn strength(&self) -> (r: Option<SignalStrength>)
        ensures
            r == (match self.edge_spec() {
                Some(e) => Some(SignalStrength::spec_from_edge(e)),
                None => None,
            }),
    {
        match self {
            ArbSignal::BuyYes { edge_pct, .. } => Some(SignalStrength::from_edge(*edge_pct)),
            ArbSignal::BuyNo { edge_pct, .. } => Some(SignalStrength::from_edge(*edge_pct)),
            ArbSignal::NoSignal => None,
        }
    }
}

} // verus!
