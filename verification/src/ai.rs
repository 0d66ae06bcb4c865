//! The shape of a feed-forward network: how many numbers each layer takes
//! and gives, how many weights it holds and where each one lies, and how
//! much room a forward pass needs. The numbers themselves are the caller's.

use vstd::prelude::*;
use crate::policy::{BOARD_FEATURES, MOVE_COUNT};

verus! {

/// How the weights of a layer are drawn at first: from a normal distribution
/// around zero whose variance is two over the layer's fan.
#[derive(Clone, Copy, PartialEq, Eq, Debug, Structural)]
pub enum WeightInit {
    He,
    Xavier,
}

/// What a layer does to each of its sums before it hands them on. The
/// temperature of a softmax is the caller's.
#[derive(Clone, Copy, PartialEq, Eq, Debug, Structural)]
pub enum Activation {
    Identity,
    Relu,
    Softmax,
}

/// The size of a layer: it takes `input_size` numbers and gives
/// `output_size`.
#[derive(Clone, Copy, PartialEq, Eq, Debug, Structural)]
pub struct LayerShape {
    pub input_size: u64,
    pub output_size: u64,
}

impl LayerShape {
    /// One weight for each input of each output.
    pub open spec fn weights(self) -> int {
        self.input_size * self.output_size
    }

    /// The number of weights of the layer, or `None` if a vector cannot
    /// hold that many.
    pub fn weight_count(&self) -> (r: Option<usize>)
        ensures
            r == (if self.weights() <= usize::MAX {
                Some(self.weights() as usize)
            } else {
                None
            }),
    {
        match self.input_size.checked_mul(self.output_size) {
            Some(n) => if n <= usize::MAX as u64 {
                Some(n as usize)
            } else {
                None
            },
            None => None,
        }
    }

    /// The place of a weight among the weights of the layer, which lie
    /// output by output: the weights of output `neuron` are the
    /// `input_size` from `neuron * input_size` on.
    pub fn weight_index(&self, neuron: usize, input: usize) -> (i: usize)
        requires
            neuron < self.output_size,
            input < self.input_size,
            self.weights() <= usize::MAX,
        ensures
            i == neuron * self.input_size + input,
            i < self.weights(),
    {
        proof {
            let n = neuron as int;
            let w = self.input_size as int;
            let h = self.output_size as int;
            assert(w <= w * h && 0 <= n * w && n * w + w <= w * h) by (nonlinear_arith)
                requires
                    0 <= n < h,
                    0 <= w,
            ;
        }
        neuron * (self.input_size as usize) + input
    }

    /// The fan of the layer under a way of drawing weights: its inputs for
    /// He, its inputs and outputs together for Xavier.
    pub open spec fn fan_spec(self, init: WeightInit) -> int {
        match init {
            WeightInit::He => self.input_size as int,
            WeightInit::Xavier => self.input_size + self.output_size,
        }
    }

    /// The fan, or `None` if it is too large for a `u64`.
    pub fn fan(&self, init: WeightInit) -> (r: Option<u64>)
        ensures
            r == (if self.fan_spec(init) <= u64::MAX {
                Some(self.fan_spec(init) as u64)
            } else {
                None
            }),
    {
        match init {
            WeightInit::He => Some(self.input_size),
            WeightInit::Xavier => self.input_size.checked_add(self.output_size),
        }
    }
}

/// Each layer takes as many numbers as the layer before it gives.
pub open spec fn chained(shapes: Seq<LayerShape>) -> bool {
    forall|i: int|
        0 <= i < shapes.len() - 1 ==> (#[trigger] shapes[i]).output_size == shapes[i
            + 1].input_size
}

/// Whether each layer takes as many numbers as the layer before it gives.
pub fn is_chained(shapes: &Vec<LayerShape>) -> (r: bool)
    ensures
        r == chained(shapes@),
{
    let mut i: usize = 1;
    while i < shapes.len()
        invariant
            1 <= i,
            forall|j: int|
                0 <= j < i - 1 && j < shapes@.len() - 1 ==> (#[trigger] shapes@[j]).output_size
                    == shapes@[j + 1].input_size,
        decreases shapes.len() - i,
    {
        if shapes[i - 1].output_size != shapes[i].input_size {
            return false;
        }
        i = i + 1;
    }
    true
}

/// How many numbers come out of a forward pass: as many as the last layer
/// gives, or the input as it is where there is no layer.
pub open spec fn output_len(shapes: Seq<LayerShape>, input_len: int) -> int {
    if shapes.len() == 0 {
        input_len
    } else {
        shapes.last().output_size as int
    }
}

/// `r` is the largest output of any layer, or zero where there is no layer.
pub open spec fn is_widest(shapes: Seq<LayerShape>, r: int) -> bool {
    &&& forall|i: int| 0 <= i < shapes.len() ==> (#[trigger] shapes[i]).output_size <= r
    &&& if shapes.len() == 0 {
        r == 0
    } else {
        exists|i: int| 0 <= i < shapes.len() && (#[trigger] shapes[i]).output_size == r
    }
}

/// The room that each scratch buffer of a forward pass needs: that of the
/// largest output of any layer.
pub fn scratch_capacity(shapes: &Vec<LayerShape>) -> (r: u64)
    ensures
        is_widest(shapes@, r as int),
{
    let mut best: u64 = 0;
    let mut i: usize = 0;
    while i < shapes.len()
        invariant
            i <= shapes.len(),
            is_widest(shapes@.take(i as int), best as int),
        decreases shapes.len() - i,
    {
        let ghost seen = shapes@.take(i as int);
        let ghost next = shapes@.take(i + 1);
        proof {
            assert forall|k: int| 0 <= k < i implies next[k] == seen[k] by {}
            if i > 0 {
                let w = choose|w: int| 0 <= w < seen.len() && (#[trigger] seen[w]).output_size == best;
                assert(next[w].output_size == best);
            }
        }
        if shapes[i].output_size >= best {
            best = shapes[i].output_size;
            assert(next[i as int].output_size == best);
        }
        i = i + 1;
    }
    proof {
        assert(shapes@.take(shapes@.len() as int) =~= shapes@);
    }
    best
}

/// What it takes to make a layer: its size, what it does to its sums, and
/// how its weights are drawn.
#[derive(Clone, Copy, PartialEq, Eq, Debug, Structural)]
pub struct LayerPlan {
    pub shape: LayerShape,
    pub activation: Activation,
    pub init: WeightInit,
}

/// The shapes of the layers of a plan, in order.
pub open spec fn shapes_of(plan: Seq<LayerPlan>) -> Seq<LayerShape> {
    Seq::new(plan.len(), |i: int| plan[i].shape)
}

/// The plan of the network that plays chess.
pub open spec fn chess_plan() -> Seq<LayerPlan> {
    seq![
        LayerPlan {
            shape: LayerShape { input_size: 768, output_size: 512 },
            activation: Activation::Relu,
            init: WeightInit::He,
        },
        LayerPlan {
            shape: LayerShape { input_size: 512, output_size: 1024 },
            activation: Activation::Relu,
            init: WeightInit::He,
        },
        LayerPlan {
            shape: LayerShape { input_size: 1024, output_size: 4096 },
            activation: Activation::Identity,
            init: WeightInit::Xavier,
        },
    ]
}

/// The network that plays chess takes an encoded board and gives one number
/// for each move, and each of its layers fits the next.
pub proof fn lemma_chess_plan_fits()
    ensures
        chained(shapes_of(chess_plan())),
        chess_plan()[0].shape.input_size == BOARD_FEATURES,
        output_len(shapes_of(chess_plan()), BOARD_FEATURES as int) == MOVE_COUNT,
{
}

/// Three layers, of 512, 1024 and 4096 outputs; the first two rectify and
/// draw their weights by He, the last hands its sums on as they are and
/// draws by Xavier.
pub fn new_chess_network() -> (layers: Vec<LayerPlan>)
    ensures
        layers@ == chess_plan(),
{
    let mut layers: Vec<LayerPlan> = Vec::new();
    layers.push(
        LayerPlan {
            shape: LayerShape { input_size: 768, output_size: 512 },
            activation: Activation::Relu,
            init: WeightInit::He,
        },
    );
    layers.push(
        LayerPlan {
            shape: LayerShape { input_size: 512, output_size: 1024 },
            activation: Activation::Relu,
            init: WeightInit::He,
        },
    );
    layers.push(
        LayerPlan {
            shape: LayerShape { input_size: 1024, output_size: 4096 },
            activation: Activation::Identity,
            init: WeightInit::Xavier,
        },
    );
    layers
}

} // verus!
