use tbwidget::placement::{
    centered_origin, effective_dpi, place_popup, work_area_usable, PopupPlacement, WorkArea,
};

#[test]
fn popup_is_centred_above_the_anchor() {
    assert_eq!(
        place_popup(500, 1040, 160, 88, 8, None),
        PopupPlacement { x: 420, y: 944, width: 160, height: 88 }
    );
    let work = WorkArea { left: 0, top: 0, right: 1920, bottom: 1040 };
    assert_eq!(
        place_popup(500, 1040, 160, 88, 8, Some(work)),
        PopupPlacement { x: 420, y: 944, width: 160, height: 88 }
    );
}

#[test]
fn popup_is_pushed_and_shrunk_into_the_work_area() {
    let work = WorkArea { left: 0, top: 0, right: 1920, bottom: 1040 };
    assert_eq!(
        place_popup(10, 1040, 160, 88, 8, Some(work)),
        PopupPlacement { x: 8, y: 944, width: 160, height: 88 }
    );
    let small = WorkArea { left: 100, top: 0, right: 300, bottom: 100 };
    assert_eq!(
        place_popup(200, 100, 400, 300, 8, Some(small)),
        PopupPlacement { x: 108, y: 8, width: 184, height: 84 }
    );
}

#[test]
fn settings_window_is_centred() {
    let work = WorkArea { left: 0, top: 0, right: 1920, bottom: 1040 };
    assert_eq!(centered_origin(work, 432, 884), (744, 78));
    assert_eq!(centered_origin(work, 4000, 2000), (0, 0));
    assert!(work_area_usable(work));
    assert!(!work_area_usable(WorkArea { left: 5, top: 0, right: 5, bottom: 10 }));
    assert_eq!(effective_dpi(0, 144), 144);
    assert_eq!(effective_dpi(-1, 144), 96);
    assert_eq!(effective_dpi(0, 0), 96);
}
