use cosmos_terrain::array_utils::{expand, flatten};

#[test]
fn test() {
    const NUM: usize = 5342512;

    let (x, y, z) = expand(NUM, 23, 50);

    assert_eq!(flatten(x, y, z, 23, 50), NUM);
}

#[test]
fn flatten_gives_exact_index() {
    assert_eq!(flatten(0, 0, 0, 4, 5), 0);
    assert_eq!(flatten(3, 0, 0, 4, 5), 3);
    assert_eq!(flatten(0, 1, 0, 4, 5), 4);
    assert_eq!(flatten(1, 2, 3, 4, 5), 3 * 20 + 2 * 4 + 1);
}

#[test]
fn expand_gives_exact_coordinates() {
    assert_eq!(expand(0, 4, 5), (0, 0, 0));
    assert_eq!(expand(69, 4, 5), (1, 2, 3));
    assert_eq!(expand(5342512, 23, 50), (5342512 % 1150 % 23, 5342512 % 1150 / 23, 5342512 / 1150));
}

#[test]
fn expand_undoes_flatten_on_every_small_coordinate() {
    let (w, h) = (3, 4);
    for z in 0..5 {
        for y in 0..h {
            for x in 0..w {
                assert_eq!(expand(flatten(x, y, z, w, h), w, h), (x, y, z));
            }
        }
    }
}
