//! The layout of the editor and the composition of textures.

use gtav_texture_importer::compose::{
    compose_final_image, cut_to_target, prepare_cell_image, Raster,
};
use gtav_texture_importer::sections::{
    CompositionCell, EditorState, PixelRect, SectionNode, SplitAxis,
};
use std::path::PathBuf;

fn editor() -> EditorState {
    EditorState::new(3, Some("a\\b.ytd".to_string()), 2)
}

fn child_ids(node: &SectionNode) -> Vec<u64> {
    match node {
        SectionNode::Leaf(_) => Vec::new(),
        SectionNode::Group(group) => group.children.iter().map(|child| child.id()).collect(),
    }
}

fn rects(cells: &[CompositionCell]) -> Vec<(u32, u32, u32, u32)> {
    cells
        .iter()
        .map(|cell| (cell.rect.x, cell.rect.y, cell.rect.width, cell.rect.height))
        .collect()
}

fn cells_of(editor: &EditorState, width: u32, height: u32) -> Vec<CompositionCell> {
    assert!(editor.root.can_compose(PixelRect { x: 0, y: 0, width, height }));
    match editor.collect_composition_cells(width, height, true) {
        Ok(cells) => cells,
        Err(error) => panic!("{}", error.message()),
    }
}

#[test]
fn a_new_editor_has_one_empty_section() {
    let editor = editor();
    assert_eq!(editor.asset_index, 3);
    assert_eq!(editor.entry_path.as_deref(), Some("a\\b.ytd"));
    assert_eq!(editor.texture_index, 2);
    assert_eq!(editor.root.id(), 1);
    assert_eq!(editor.next_section_id, 2);
    assert_eq!(editor.root.count_missing_images(), 1);
    assert!(!editor.is_complete());
}

#[test]
fn adding_splits_a_section_and_then_extends_the_group() {
    let mut editor = editor();
    editor.add_section(1, SplitAxis::Horizontal);
    assert_eq!(editor.root.id(), 2);
    assert_eq!(child_ids(&editor.root), vec![1, 3]);
    editor.add_section(2, SplitAxis::Horizontal);
    assert_eq!(child_ids(&editor.root), vec![1, 3, 4]);
    assert_eq!(editor.next_section_id, 5);
}

#[test]
fn adding_along_the_other_axis_nests() {
    let mut editor = editor();
    editor.add_section(1, SplitAxis::Horizontal);
    editor.add_section(3, SplitAxis::Vertical);
    assert_eq!(child_ids(&editor.root), vec![1, 4]);
    if let SectionNode::Group(group) = &editor.root {
        assert_eq!(child_ids(&group.children[1]), vec![3, 5]);
    } else {
        panic!("the root is a group");
    }
}

#[test]
fn adding_to_an_unknown_section_changes_nothing() {
    let mut editor = editor();
    editor.add_section(77, SplitAxis::Vertical);
    assert_eq!(editor.root.id(), 1);
    assert_eq!(editor.next_section_id, 2);
}

#[test]
fn removing_takes_back_an_addition() {
    let mut editor = editor();
    editor.add_section(1, SplitAxis::Vertical);
    editor.remove_section(3, SplitAxis::Vertical);
    assert_eq!(editor.root.id(), 1);
    assert!(child_ids(&editor.root).is_empty());
}

#[test]
fn removing_works_only_along_the_axis_of_the_group() {
    let mut editor = editor();
    editor.add_section(1, SplitAxis::Vertical);
    editor.remove_section(3, SplitAxis::Horizontal);
    assert_eq!(child_ids(&editor.root), vec![1, 3]);
    editor.remove_section(2, SplitAxis::Vertical);
    assert_eq!(child_ids(&editor.root), vec![1, 3]);
}

#[test]
fn an_editor_is_complete_once_each_section_has_an_image() {
    let mut editor = editor();
    editor.add_section(1, SplitAxis::Horizontal);
    editor.set_leaf_image(1, PathBuf::from("/a.png"), 10);
    assert!(!editor.is_complete());
    editor.set_leaf_image(2, PathBuf::from("/group.png"), 11);
    assert_eq!(editor.root.count_missing_images(), 1);
    editor.set_leaf_image(3, PathBuf::from("/b.png"), 12);
    assert!(editor.is_complete());
}

#[test]
fn repeated_additions_give_equal_shares() {
    let mut editor = editor();
    editor.add_section(1, SplitAxis::Horizontal);
    editor.add_section(2, SplitAxis::Horizontal);
    for (id, name) in [(1, "/a.png"), (3, "/b.png"), (4, "/c.png")] {
        editor.set_leaf_image(id, PathBuf::from(name), id);
    }
    let cells = cells_of(&editor, 64, 100);
    assert_eq!(rects(&cells), vec![(0, 0, 64, 33), (0, 33, 64, 33), (0, 66, 64, 34)]);
    assert_eq!(cells[1].image_path, PathBuf::from("/b.png"));
    assert!(cells[2].keep_alpha);
}

fn leaf_ids(node: &SectionNode) -> Vec<u64> {
    match node {
        SectionNode::Leaf(_) => Vec::new(),
        SectionNode::Group(group) => group
            .children
            .iter()
            .filter(|child| matches!(child, SectionNode::Leaf(_)))
            .map(|child| child.id())
            .collect(),
    }
}

#[test]
fn repeated_additions_to_one_section_give_equal_siblings() {
    let mut editor = editor();
    editor.add_section(1, SplitAxis::Horizontal);
    editor.add_section(1, SplitAxis::Horizontal);
    assert_eq!(editor.root.id(), 2);
    assert_eq!(leaf_ids(&editor.root), vec![1, 4, 3]);
    assert_eq!(child_ids(&editor.root), vec![1, 4, 3]);
    assert_eq!(editor.next_section_id, 5);
    if let SectionNode::Group(group) = &editor.root {
        assert!(group.axis == SplitAxis::Horizontal);
    }
    for id in [1, 3, 4] {
        editor.set_leaf_image(id, PathBuf::from("/x.png"), id);
    }
    let cells = cells_of(&editor, 64, 90);
    assert_eq!(rects(&cells), vec![(0, 0, 64, 30), (0, 30, 64, 30), (0, 60, 64, 30)]);
    editor.remove_section(4, SplitAxis::Horizontal);
    assert_eq!(child_ids(&editor.root), vec![1, 3]);
}

#[test]
fn additions_along_both_axes_alternate() {
    let mut editor = editor();
    editor.add_section(1, SplitAxis::Vertical);
    editor.add_section(1, SplitAxis::Horizontal);
    editor.add_section(1, SplitAxis::Horizontal);
    assert_eq!(child_ids(&editor.root), vec![4, 3]);
    if let SectionNode::Group(group) = &editor.root {
        assert_eq!(leaf_ids(&group.children[0]), vec![1, 6, 5]);
    }
}

#[test]
fn a_group_inside_a_group_of_its_axis_is_extended() {
    let mut editor = editor();
    editor.add_section(1, SplitAxis::Vertical);
    editor.add_section(1, SplitAxis::Horizontal);
    editor.add_section(2, SplitAxis::Horizontal);
    editor.remove_section(3, SplitAxis::Vertical);
    assert_eq!(editor.root.id(), 6);
    assert_eq!(child_ids(&editor.root), vec![4, 7]);
    editor.add_section(4, SplitAxis::Horizontal);
    assert_eq!(child_ids(&editor.root), vec![4, 7]);
    if let SectionNode::Group(group) = &editor.root {
        assert!(group.axis == SplitAxis::Horizontal);
        assert_eq!(leaf_ids(&group.children[0]), vec![1, 5, 8]);
    } else {
        panic!("the root is a group");
    }
    assert_eq!(editor.root.count_missing_images(), 4);
    editor.add_section(7, SplitAxis::Horizontal);
    editor.add_section(6, SplitAxis::Horizontal);
    assert_eq!(child_ids(&editor.root), vec![4, 7, 9, 10]);
}

#[test]
fn nested_sections_tile_the_texture() {
    let mut editor = editor();
    editor.add_section(1, SplitAxis::Horizontal);
    editor.add_section(3, SplitAxis::Vertical);
    for id in [1, 3, 5] {
        editor.set_leaf_image(id, PathBuf::from("/x.png"), id);
    }
    let cells = cells_of(&editor, 5, 4);
    assert_eq!(rects(&cells), vec![(0, 0, 5, 2), (0, 2, 2, 2), (2, 2, 3, 2)]);
    let area: u32 = cells.iter().map(|cell| cell.rect.width * cell.rect.height).sum();
    assert_eq!(area, 20);
}

#[test]
fn a_missing_image_is_reported() {
    let editor = editor();
    let error = match editor.collect_composition_cells(8, 8, false) {
        Ok(_) => panic!("an image is missing"),
        Err(error) => error,
    };
    assert_eq!(error.message(), "Every section needs an image before applying changes");
}

#[test]
fn a_canvas_without_cells_is_the_background() {
    let opaque = compose_final_image(2, 1, false, &Vec::new(), &Vec::new());
    assert_eq!(opaque.data, vec![255; 8]);
    let clear = compose_final_image(1, 2, true, &Vec::new(), &Vec::new());
    assert_eq!((clear.width, clear.height), (1, 2));
    assert_eq!(clear.data, vec![0; 8]);
}

#[test]
fn each_cell_is_put_in_its_place() {
    let cell = |x, width| CompositionCell {
        rect: PixelRect { x, y: 0, width, height: 1 },
        image_path: PathBuf::from("/i.png"),
        keep_alpha: true,
    };
    let left = Raster { width: 1, height: 1, data: vec![1, 2, 3, 4] };
    let right = Raster { width: 2, height: 1, data: vec![5, 6, 7, 8, 9, 10, 11, 12] };
    let image = compose_final_image(3, 1, true, &vec![cell(0, 1), cell(1, 2)], &vec![left, right]);
    assert_eq!(image.data, vec![1, 2, 3, 4, 5, 6, 7, 8, 9, 10, 11, 12]);
}

#[test]
fn the_middle_of_an_image_is_cut_out() {
    let mut data = Vec::new();
    for pixel in 0u8..12 {
        data.extend_from_slice(&[pixel, pixel, pixel, 255]);
    }
    let image = Raster { width: 4, height: 3, data };
    let middle = cut_to_target(&image, 2, 1);
    assert_eq!(middle.data, vec![5, 5, 5, 255, 6, 6, 6, 255]);
}

#[test]
fn an_image_of_the_right_size_is_only_cut() {
    let image = Raster { width: 3, height: 1, data: vec![1, 1, 1, 1, 2, 2, 2, 2, 3, 3, 3, 3] };
    let cell = prepare_cell_image(&image, 3, 1, 1, 1);
    assert_eq!(cell.data, vec![2, 2, 2, 2]);
}

#[test]
fn an_image_is_scaled_to_cover_its_cell() {
    let image = Raster { width: 2, height: 2, data: vec![90; 16] };
    let cell = prepare_cell_image(&image, 6, 6, 6, 4);
    assert_eq!((cell.width, cell.height), (6, 4));
    assert_eq!(cell.data, vec![90; 96]);
}
