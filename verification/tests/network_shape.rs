use poulet::ai::{
    is_chained, scratch_capacity, Activation, LayerPlan, LayerShape, WeightInit,
};
use poulet::new_chess_network;
use poulet::policy::{BOARD_FEATURES, MOVE_COUNT};

fn shape(input_size: u64, output_size: u64) -> LayerShape {
    LayerShape { input_size, output_size }
}

#[test]
fn a_layer_has_one_weight_for_each_input_of_each_output() {
    assert_eq!(shape(768, 512).weight_count(), Some(768 * 512));
    assert_eq!(shape(3, 0).weight_count(), Some(0));
    assert_eq!(shape(0, 3).weight_count(), Some(0));
    assert_eq!(shape(1, 1).weight_count(), Some(1));
    assert_eq!(shape(u64::MAX, 2).weight_count(), None);
    assert_eq!(shape(1 << 32, 1 << 32).weight_count(), None);
}

#[test]
fn weights_lie_output_by_output() {
    let s = shape(4, 3);
    assert_eq!(s.weight_index(0, 0), 0);
    assert_eq!(s.weight_index(0, 3), 3);
    assert_eq!(s.weight_index(1, 0), 4);
    assert_eq!(s.weight_index(2, 3), 11);
    let mut seen = vec![false; 12];
    for neuron in 0..3 {
        for input in 0..4 {
            let i = s.weight_index(neuron, input);
            assert!(!seen[i]);
            seen[i] = true;
        }
    }
    assert!(seen.iter().all(|&b| b));
}

#[test]
fn the_fan_is_inputs_for_he_and_both_for_xavier() {
    assert_eq!(shape(768, 512).fan(WeightInit::He), Some(768));
    assert_eq!(shape(1024, 4096).fan(WeightInit::Xavier), Some(5120));
    assert_eq!(shape(0, 7).fan(WeightInit::He), Some(0));
    assert_eq!(shape(u64::MAX, 1).fan(WeightInit::He), Some(u64::MAX));
    assert_eq!(shape(u64::MAX, 1).fan(WeightInit::Xavier), None);
    assert_eq!(shape(u64::MAX, 0).fan(WeightInit::Xavier), Some(u64::MAX));
}

#[test]
fn layers_are_chained_when_each_fits_the_next() {
    assert!(is_chained(&vec![]));
    assert!(is_chained(&vec![shape(3, 9)]));
    assert!(is_chained(&vec![shape(3, 9), shape(9, 2), shape(2, 2)]));
    assert!(!is_chained(&vec![shape(3, 9), shape(8, 2)]));
    assert!(!is_chained(&vec![shape(3, 9), shape(9, 2), shape(3, 2)]));
}

#[test]
fn scratch_holds_the_widest_output() {
    assert_eq!(scratch_capacity(&vec![]), 0);
    assert_eq!(scratch_capacity(&vec![shape(3, 9)]), 9);
    assert_eq!(scratch_capacity(&vec![shape(3, 9), shape(9, 20), shape(20, 2)]), 20);
    assert_eq!(scratch_capacity(&vec![shape(100, 1), shape(1, 1)]), 1);
}

#[test]
fn the_chess_network_reads_a_board_and_names_a_move() {
    let plan = new_chess_network();
    assert_eq!(
        plan,
        vec![
            LayerPlan {
                shape: shape(768, 512),
                activation: Activation::Relu,
                init: WeightInit::He
            },
            LayerPlan {
                shape: shape(512, 1024),
                activation: Activation::Relu,
                init: WeightInit::He
            },
            LayerPlan {
                shape: shape(1024, 4096),
                activation: Activation::Identity,
                init: WeightInit::Xavier
            },
        ]
    );
    let shapes: Vec<LayerShape> = plan.iter().map(|l| l.shape).collect();
    assert!(is_chained(&shapes));
    assert_eq!(shapes[0].input_size as usize, BOARD_FEATURES);
    assert_eq!(shapes[2].output_size as usize, MOVE_COUNT);
    assert_eq!(scratch_capacity(&shapes), 4096);
}
