//! Handler of the `/canteen` command.

use vstd::prelude::*;
use vstd::string::*;

use crate::canteen::{
    all_weights_positive, prefix_weight, weights_of, Canteen, CanteenPicker,
    lemma_prefix_weight_mono,
};
use crate::commands::{Command, ConfigError, Reply};
use crate::config::{config_weights, Config};
use crate::utils::MessageContext;

verus! {

/// Handler of the `/canteen` command.
pub struct CanteenCommandHandler {
    picker: CanteenPicker,
}

impl CanteenCommandHandler {
    /// The picker the handler chooses with.
    pub closed spec fn spec_picker(&self) -> CanteenPicker {
        self.picker
    }

    /// The handler's picker is well-formed.
    pub open spec fn wf(&self) -> bool {
        self.spec_picker().wf()
    }

    /// `text` is the name of a canteen that some draw within the catalog's
    /// total weight selects.
    pub open spec fn spec_replied(&self, text: Seq<char>) -> bool {
        exists|i: int, s: u64|
            1 <= s <= self.spec_picker().spec_total_weight() && self.spec_picker().picked_index(
                i,
                s,
            ) && text == self.spec_picker().spec_canteens()[i].name@
    }

    /// Create the handler from the configured canteens list.
    ///
    /// An empty catalog, a canteen of weight 0 or a total weight beyond
    /// 64 bits can never be served: each is a fatal configuration error.
    pub fn new(config: &Config) -> (r: Result<CanteenCommandHandler, ConfigError>)
        ensures
            match r {
                Ok(h) => {
                    &&& h.wf()
                    &&& config.canteens@.len() > 0
                    &&& all_weights_positive(config_weights(config.canteens@))
                    &&& prefix_weight(
                        config_weights(config.canteens@),
                        config.canteens@.len() as int,
                    ) <= u64::MAX
                    &&& h.spec_picker().spec_canteens().len() == config.canteens@.len()
                    &&& forall|i: int|
                        0 <= i < config.canteens@.len()
                            ==> #[trigger] h.spec_picker().spec_canteens()[i].name@
                            == config.canteens@[i].name@ && h.spec_picker().spec_canteens()[i].weight
                            == config.canteens@[i].weight
                },
                Err(ConfigError::NoCanteens) => config.canteens@.len() == 0,
                Err(ConfigError::ZeroWeightCanteen) => config.canteens@.len() > 0
                    && !all_weights_positive(config_weights(config.canteens@)),
                Err(ConfigError::WeightOverflow) => config.canteens@.len() > 0
                    && all_weights_positive(config_weights(config.canteens@)) && prefix_weight(
                    config_weights(config.canteens@),
                    config.canteens@.len() as int,
                ) > u64::MAX,
            },
    {
        let n = config.canteens.len();
        if n == 0 {
            return Err(ConfigError::NoCanteens);
        }
        let mut i: usize = 0;
        while i < n
            invariant
                0 <= i <= n,
                n == config.canteens@.len(),
                forall|k: int| 0 <= k < i ==> #[trigger] config_weights(config.canteens@)[k] >= 1,
            decreases n - i,
        {
            if config.canteens[i].weight == 0 {
                proof {
                    assert(config_weights(config.canteens@)[i as int] == 0);
                }
                return Err(ConfigError::ZeroWeightCanteen);
            }
            i = i + 1;
        }
        let mut canteens: Vec<Canteen> = Vec::with_capacity(n);
        let mut total: u64 = 0;
        let mut i: usize = 0;
        while i < n
            invariant
                0 <= i <= n,
                n == config.canteens@.len(),
                canteens@.len() == i,
                all_weights_positive(config_weights(config.canteens@)),
                forall|k: int|
                    0 <= k < i ==> #[trigger] canteens@[k].name@ == config.canteens@[k].name@,
                forall|k: int|
                    0 <= k < i ==> #[trigger] canteens@[k].weight == config.canteens@[k].weight,
                total == prefix_weight(weights_of(canteens@), i as int),
            decreases n - i,
        {
            let c = &config.canteens[i];
            let w = c.weight;
            let ghost prev = canteens@;
            canteens.push(Canteen { name: c.name.clone(), weight: w });
            proof {
                assert(weights_of(canteens@) =~= weights_of(prev).push(w));
                lemma_prefix_weight_prefix(weights_of(prev), weights_of(canteens@), i as int);
            }
            total = match total.checked_add(w) {
                Some(t) => t,
                None => {
                    proof {
                        lemma_config_weights_agree(canteens@, config.canteens@, i as int + 1);
                        lemma_prefix_overflow(
                            config_weights(config.canteens@),
                            i as int + 1,
                            n as int,
                        );
                    }
                    return Err(ConfigError::WeightOverflow);
                },
            };
            i = i + 1;
        }
        proof {
            lemma_config_weights_agree(canteens@, config.canteens@, n as int);
            assert(weights_of(canteens@) =~= config_weights(config.canteens@));
        }
        let picker = CanteenPicker::new(canteens);
        Ok(CanteenCommandHandler { picker })
    }

    /// Whether this handler answers the given command.
    pub fn accept(&self, cmd: &Command) -> (r: bool)
        ensures
            r == (*cmd is Canteen),
    {
        match cmd {
            Command::Canteen => true,
            _ => false,
        }
    }

    /// Reply with the name of a randomly chosen canteen.
    pub fn handle(&self, _cmd: &Command, _ctx: &MessageContext) -> (r: Option<Reply>)
        requires
            self.wf(),
        ensures
            r matches Some(rep) && rep.file_write is None && self.spec_replied(rep.text@),
    {
        let canteen = self.picker.pick();
        Some(Reply { text: canteen.name.clone(), file_write: None })
    }
}

/// A sequence and an extension of it have the same prefix weights over the
/// shared prefix.
proof fn lemma_prefix_weight_prefix(short: Seq<u64>, long: Seq<u64>, n: int)
    requires
        0 <= n <= short.len() <= long.len(),
        forall|k: int| 0 <= k < short.len() ==> short[k] == long[k],
    ensures
        prefix_weight(short, n) == prefix_weight(long, n),
    decreases n,
{
    if n > 0 {
        lemma_prefix_weight_prefix(short, long, n - 1);
    }
}

/// The built canteens carry exactly the configured weights.
proof fn lemma_config_weights_agree(
    built: Seq<Canteen>,
    configured: Seq<crate::config::Canteen>,
    n: int,
)
    requires
        0 <= n <= built.len(),
        n <= configured.len(),
        forall|k: int| 0 <= k < n ==> #[trigger] built[k].weight == configured[k].weight,
    ensures
        forall|k: int|
            0 <= k < n ==> #[trigger] weights_of(built)[k] == config_weights(configured)[k],
        prefix_weight(weights_of(built), n) == prefix_weight(config_weights(configured), n),
    decreases n,
{
    if n > 0 {
        lemma_config_weights_agree(built, configured, n - 1);
    }
}

/// Once a prefix of the weights already overflows, the whole total does.
proof fn lemma_prefix_overflow(ws: Seq<u64>, i: int, n: int)
    requires
        0 <= i <= n <= ws.len(),
        prefix_weight(ws, i) > u64::MAX,
    ensures
        prefix_weight(ws, n) > u64::MAX,
    decreases n - i,
{
    if i < n {
        lemma_prefix_overflow(ws, i + 1, n);
    }
}

} // verus!
