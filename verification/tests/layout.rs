use media_sort::date::Date;
use media_sort::date::month_name;
use media_sort::layout::plan_relocation;
use media_sort::layout::sidecar_moves_to_perform;
use media_sort::text::decimal_string;
use media_sort::text::pad2_string;
use media_sort::text::pad4_string;

#[test]
fn example_two_files_two_dates() {
    let a = plan_relocation("/out", "/srcdir/a.png", Date { year: 2023, month: 3, day: 5 });
    assert_eq!(a.final_dir.as_str(), "/out/2023/03 - March/2023-03-05");
    assert_eq!(a.final_path.as_str(), "/out/2023/03 - March/2023-03-05/a.png");

    let b = plan_relocation("/out", "/srcdir/b.jpg", Date { year: 2021, month: 12, day: 31 });
    assert_eq!(b.final_dir.as_str(), "/out/2021/12 - December/2021-12-31");
    assert_eq!(b.final_path.as_str(), "/out/2021/12 - December/2021-12-31/b.jpg");
}

#[test]
fn relocated_path_formula() {
    let p = plan_relocation("/dest", "/pics/IMG_0042.ARW", Date { year: 2024, month: 7, day: 9 });
    assert_eq!(p.final_dir.as_str(), "/dest/2024/07 - July/2024-07-09");
    assert_eq!(p.final_path.as_str(), "/dest/2024/07 - July/2024-07-09/IMG_0042.arw");
}

#[test]
fn only_extension_is_lowered() {
    let p = plan_relocation("/out", "/pics/Vacation.Day1.JPG", Date {
        year: 2020,
        month: 1,
        day: 2,
    });
    assert_eq!(p.final_path.as_str(), "/out/2020/01 - January/2020-01-02/Vacation.Day1.jpg");
}

#[test]
fn file_without_extension_keeps_its_name() {
    let p = plan_relocation("/out", "/pics/snapshot", Date { year: 2020, month: 6, day: 15 });
    assert_eq!(p.final_path.as_str(), "/out/2020/06 - June/2020-06-15/snapshot");
}

#[test]
fn trailing_slash_on_root_adds_no_second_separator() {
    let p = plan_relocation("/out/", "/pics/a.png", Date { year: 2023, month: 3, day: 5 });
    assert_eq!(p.final_path.as_str(), "/out/2023/03 - March/2023-03-05/a.png");
}

#[test]
fn sidecar_candidates_use_normalized_base_name() {
    let p = plan_relocation("/out", "/pics/photo.CR2", Date { year: 2022, month: 2, day: 8 });
    assert_eq!(p.final_path.as_str(), "/out/2022/02 - February/2022-02-08/photo.cr2");
    assert_eq!(p.sidecars.len(), 2);
    assert_eq!(p.sidecars[0].source.as_str(), "/pics/photo.cr2.dop");
    assert_eq!(p.sidecars[0].dest.as_str(), "/out/2022/02 - February/2022-02-08/photo.cr2.dop");
    assert_eq!(p.sidecars[1].source.as_str(), "/pics/photo.cr2.xmp");
    assert_eq!(p.sidecars[1].dest.as_str(), "/out/2022/02 - February/2022-02-08/photo.cr2.xmp");
}

#[test]
fn sidecar_moved_if_and_only_if_present() {
    let p = plan_relocation("/out", "/pics/photo.CR2", Date { year: 2022, month: 2, day: 8 });

    let only_xmp = sidecar_moves_to_perform(&p, &vec![false, true]);
    assert_eq!(only_xmp.len(), 1);
    assert_eq!(only_xmp[0].source.as_str(), "/pics/photo.cr2.xmp");
    assert_eq!(only_xmp[0].dest.as_str(), "/out/2022/02 - February/2022-02-08/photo.cr2.xmp");

    let none = sidecar_moves_to_perform(&p, &vec![false, false]);
    assert_eq!(none.len(), 0);

    let both = sidecar_moves_to_perform(&p, &vec![true, true]);
    assert_eq!(both.len(), 2);
    assert_eq!(both[0].source.as_str(), "/pics/photo.cr2.dop");
    assert_eq!(both[1].source.as_str(), "/pics/photo.cr2.xmp");
}

#[test]
fn same_creation_date_lands_in_same_leaf_directory() {
    let d = Date { year: 2023, month: 3, day: 5 };
    let a = plan_relocation("/out", "/pics/a.png", d);
    let b = plan_relocation("/out", "/elsewhere/deep/b.JPG", d);
    assert_eq!(a.final_dir, b.final_dir);
}

#[test]
fn month_names() {
    let names = [
        "January", "February", "March", "April", "May", "June", "July", "August", "September",
        "October", "November", "December",
    ];
    let mut m = 1u32;
    for name in names {
        assert_eq!(month_name(m), name);
        m += 1;
    }
}

#[test]
fn decimal_and_padding() {
    assert_eq!(decimal_string(0).as_str(), "0");
    assert_eq!(decimal_string(7).as_str(), "7");
    assert_eq!(decimal_string(907).as_str(), "907");
    assert_eq!(decimal_string(4294967295).as_str(), "4294967295");
    assert_eq!(pad2_string(3).as_str(), "03");
    assert_eq!(pad2_string(10).as_str(), "10");
    assert_eq!(pad2_string(12).as_str(), "12");
    assert_eq!(pad4_string(7).as_str(), "0007");
    assert_eq!(pad4_string(87).as_str(), "0087");
    assert_eq!(pad4_string(987).as_str(), "0987");
    assert_eq!(pad4_string(2023).as_str(), "2023");
}
