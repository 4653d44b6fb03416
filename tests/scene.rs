use raytracer::{
    is_reserved_column, kind_for_draw, open_cells, place_spheres, random_layout, MaterialKind,
    Placement,
};

#[test]
fn reserved_columns() {
    for x in -10..6 {
        assert_eq!(is_reserved_column(x), x == -4 || x == 0 || x == 4);
    }
}

#[test]
fn kinds_by_draw() {
    assert_eq!(kind_for_draw(0), Some(MaterialKind::Diffuse));
    assert_eq!(kind_for_draw(1), Some(MaterialKind::Refractive));
    assert_eq!(kind_for_draw(2), Some(MaterialKind::Reflective));
    assert_eq!(kind_for_draw(3), None);
    assert_eq!(kind_for_draw(4), None);
    assert_eq!(kind_for_draw(251), Some(MaterialKind::Refractive));
    assert_eq!(kind_for_draw(255), Some(MaterialKind::Diffuse));
}

#[test]
fn open_cells_skip_reserved_columns() {
    let cells = open_cells();
    assert_eq!(cells.len(), 13 * 20);
    assert_eq!(cells[0], (-10, -10));
    assert_eq!(cells[1], (-10, -9));
    assert_eq!(cells[20], (-9, -10));
    assert_eq!(*cells.last().unwrap(), (5, 9));
    assert!(cells.iter().all(|c| !is_reserved_column(c.0)));
    assert!(!cells.contains(&(0, 3)));
}

#[test]
fn placements_follow_draws() {
    let cells = vec![(1, 2), (3, 4), (5, 6), (7, 8)];
    let draws = vec![5, 3, 12, 11];
    assert_eq!(
        place_spheres(&cells, &draws),
        vec![
            Placement { x: 1, z: 2, kind: MaterialKind::Diffuse },
            Placement { x: 5, z: 6, kind: MaterialKind::Reflective },
            Placement { x: 7, z: 8, kind: MaterialKind::Refractive },
        ]
    );
}

#[test]
fn placements_replay_identically() {
    let cells = open_cells();
    let draws: Vec<u8> = (0..cells.len()).map(|i| (i * 37 % 256) as u8).collect();
    assert_eq!(place_spheres(&cells, &draws), place_spheres(&cells, &draws));
}

#[test]
fn random_layout_uses_open_cells() {
    let cells = open_cells();
    let layout = random_layout();
    assert!(layout.len() <= cells.len());
    for p in &layout {
        assert!(cells.contains(&(p.x, p.z)));
    }
    for w in layout.windows(2) {
        assert!((w[0].x, w[0].z) < (w[1].x, w[1].z));
    }
}
