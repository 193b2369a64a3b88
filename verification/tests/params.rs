use nine_slice::params::{OuterArea, Params};
use nine_slice::rect::Rect;
use nine_slice::{PositionU, Size};

#[derive(Copy, Clone, Debug)]
enum Scale {
    By(f32),
    To(usize),
}

#[derive(Copy, Clone, Debug, Default)]
struct ScaleMethod;

#[test]
fn test_params() {
    let outer = OuterArea::Size(Size { width: 1024, height: 1024 });
    let inner = Rect {
        position: PositionU { x: 4, y: 4 },
        size: Size { width: 1016, height: 1016 },
    };
    assert!(
        Params::new_checked(outer, inner, Some(Scale::To(300)), None, ScaleMethod::default())
            .is_some()
    );
    assert!(
        Params::new_checked(
            outer,
            inner,
            Some(Scale::To(300)),
            Some(Scale::By(0.5)),
            ScaleMethod::default()
        )
        .is_some()
    );
    assert!(Params::<Scale, ScaleMethod>::new_checked(outer, inner, None, None, ScaleMethod::default()).is_none());

    let outer_rect = OuterArea::Rect(Rect {
        position: PositionU { x: 2, y: 2 },
        size: *outer.size(),
    });
    assert!(
        Params::new_checked(outer_rect, inner, Some(Scale::To(300)), None, ScaleMethod::default())
            .is_some()
    );

    let inner_bad = Rect {
        position: PositionU { x: 4, y: 4 },
        size: Size { width: 3000, height: 3000 },
    };
    assert!(
        Params::new_checked(outer, inner_bad, Some(Scale::To(300)), None, ScaleMethod::default())
            .is_none()
    );

    let outer_bad_size = OuterArea::Size(Size { width: 4, height: 4 });
    assert!(
        Params::new_checked(outer_bad_size, inner, Some(Scale::To(300)), None, ScaleMethod::default())
            .is_none()
    );

    assert!(
        Params::new_checked(
            outer_bad_size,
            inner_bad,
            Some(Scale::To(300)),
            None,
            ScaleMethod::default()
        )
        .is_none()
    );

    let outer_bad_rect = OuterArea::Rect(Rect {
        position: PositionU { x: 1000, y: 1000 },
        size: *outer.size(),
    });
    assert!(
        Params::new_checked(outer_bad_rect, inner, Some(Scale::To(300)), None, ScaleMethod::default())
            .is_none()
    );
}

#[test]
fn params_keep_their_parts() {
    let outer = OuterArea::Size(Size { width: 10, height: 10 });
    let inner = Rect { position: PositionU { x: 1, y: 2 }, size: Size { width: 3, height: 4 } };
    let p = Params::new_checked(outer, inner, None, Some(7u32), "m").unwrap();
    assert_eq!(p.outer, outer);
    assert_eq!(p.inner, inner);
    assert_eq!(p.horizontal, None);
    assert_eq!(p.vertical, Some(7));
    assert_eq!(p.method, "m");
    assert_eq!(*OuterArea::Rect(inner).size(), Size { width: 3, height: 4 });
}
