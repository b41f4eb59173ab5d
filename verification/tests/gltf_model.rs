use mdk_parse::gltf::{Gltf, MeshIndex, NodeIndex};

#[test]
fn nodes_form_a_tree_under_the_root() {
    let mut g = Gltf::new(String::from("level"));
    assert_eq!(g.get_root_node(), NodeIndex(0));
    let a = g.create_base_node(String::from("a"), None);
    let b = g.create_child_node(a, String::from("b"), Some(MeshIndex(3)));
    assert_eq!(a, NodeIndex(1));
    assert_eq!(b, NodeIndex(2));
    assert_eq!(g.node_children(NodeIndex(0)), &vec![a]);
    assert_eq!(g.node_children(a), &vec![b]);
    assert_eq!(g.node_parent(b), Some(a));
    assert_eq!(g.get_node_mesh(b), Some(MeshIndex(3)));
    assert_eq!(g.node_count(), 3);
}

#[test]
fn moving_a_node_takes_it_from_its_old_parent() {
    let mut g = Gltf::new(String::from("level"));
    let a = g.create_base_node(String::from("a"), None);
    let b = g.create_base_node(String::from("b"), None);
    let c = g.create_child_node(a, String::from("c"), None);
    g.set_node_parent(b, c);
    assert!(g.node_children(a).is_empty());
    assert_eq!(g.node_children(b), &vec![c]);
    assert_eq!(g.node_parent(c), Some(b));
    // moving it under the same parent again keeps a single entry, now last
    let d = g.create_child_node(b, String::from("d"), None);
    g.set_node_parent(b, c);
    assert_eq!(g.node_children(b), &vec![d, c]);
    g.set_node_mesh(d, MeshIndex(7));
    assert_eq!(g.get_node_mesh(d), Some(MeshIndex(7)));
}

#[test]
fn combining_buffers_aligns_each_part_to_four_bytes() {
    let mut g = Gltf::new(String::from("m"));
    assert_eq!(g.add_buffer_data(&[1, 2, 3], Some(34962)), 0);
    assert_eq!(g.add_buffer_data(&[4, 5], None), 1);
    assert_eq!(g.add_buffer_data(&[6, 7, 8, 9, 10], Some(34963)), 2);
    g.combine_buffers();
    assert_eq!(g.buffers().len(), 1);
    assert_eq!(g.buffers()[0].data, vec![1, 2, 3, 0, 4, 5, 0, 0, 6, 7, 8, 9, 10]);
    assert_eq!(g.buffers()[0].byte_length, 13);
    let views = g.buffer_views();
    assert_eq!((views[0].buffer, views[0].byte_offset, views[0].byte_length), (0, 0, 3));
    assert_eq!((views[1].buffer, views[1].byte_offset, views[1].byte_length), (0, 4, 2));
    assert_eq!((views[2].buffer, views[2].byte_offset, views[2].byte_length), (0, 8, 5));
    assert_eq!(views[2].target, Some(34963));
}

#[test]
fn combining_without_buffers_changes_nothing() {
    let mut g = Gltf::new(String::from("m"));
    g.combine_buffers();
    assert!(g.buffers().is_empty());
    assert!(g.buffer_views().is_empty());
}
