use personal_data_hub::data_url::{data_url_decode, split_data_url};
use personal_data_hub::local_data::{
    custom_data_dir, file_name_for, migrated_mime_type, names_a_file, wallpaper_file_name,
};

#[test]
fn base64_data_url_is_decoded() {
    let r = data_url_decode("data:image/png;base64,aGVsbG8=");
    assert_eq!(r, Some(("image/png".to_string(), b"hello".to_vec())));
    let r = data_url_decode("  data: image/gif ; charset=x ; BASE64 ,, aGk=  ");
    assert_eq!(r, Some(("image/gif".to_string(), b"hi".to_vec())));
    let r = data_url_decode("data:;base64,");
    assert_eq!(r, Some((String::new(), Vec::new())));
    let r = data_url_decode("data:data:text/plain;base64,QQ==");
    assert_eq!(r, Some(("text/plain".to_string(), b"A".to_vec())));
}

#[test]
fn other_texts_are_no_data_urls() {
    assert_eq!(data_url_decode(""), None);
    assert_eq!(data_url_decode("http://x/y.png"), None);
    assert_eq!(data_url_decode("data:image/png;base64"), None);
    assert_eq!(data_url_decode("data:image/png,aGVsbG8="), None);
    assert_eq!(data_url_decode("data:base64,aGVsbG8="), None);
    assert_eq!(data_url_decode("data:image/png;base64x,aGVsbG8="), None);
    assert_eq!(data_url_decode("DATA:image/png;base64,aGVsbG8="), None);
}

#[test]
fn payload_that_is_no_base64_gives_nothing() {
    assert_eq!(data_url_decode("data:image/png;base64,@@@"), None);
    assert_eq!(data_url_decode("data:image/png;base64,aGVsbG8"), None);
    assert_eq!(data_url_decode("data:image/png;base64,aGV sbG8="), None);
    // the payload is handed on as it stands between the commas and the end
    assert_eq!(
        split_data_url("data:image/png;base64,aGV sbG8="),
        Some(("image/png".to_string(), "aGV sbG8=".to_string()))
    );
}

#[test]
fn parts_of_a_data_url() {
    assert_eq!(
        split_data_url("data:a/b;x=1;base64,,,PAY,LOAD "),
        Some(("a/b".to_string(), "PAY,LOAD".to_string()))
    );
    assert_eq!(split_data_url("data:a/b;base64;,x"), Some(("a/b".to_string(), "x".to_string())));
    assert_eq!(split_data_url("data:a/b; Base64 ,x"), Some(("a/b".to_string(), "x".to_string())));
    assert_eq!(split_data_url("data:a/b;,x"), None);
    assert_eq!(split_data_url("data:a/b,x"), None);
    assert_eq!(split_data_url("data:base64;a/b,x"), None);
}

#[test]
fn names_of_image_files() {
    assert_eq!(file_name_for("local_1", Some("png".to_string()), "image/gif"), "local_1.png");
    assert_eq!(file_name_for("local_1", None, " IMAGE/GIF "), "local_1.gif");
    assert_eq!(file_name_for("local_1", None, "text/plain"), "local_1.img");
    assert_eq!(wallpaper_file_name("local_1", "sea.JPEG", ""), Ok("local_1.jpg".to_string()));
    assert_eq!(wallpaper_file_name("local_1", "sea", "image/webp"), Ok("local_1.webp".to_string()));
    assert_eq!(wallpaper_file_name("local_1", "sea.t x", "what"), Ok("local_1.img".to_string()));
    assert_eq!(wallpaper_file_name("  ", "sea.png", ""), Err("wallpaper id is empty".to_string()));
    assert_eq!(
        wallpaper_file_name("../up", "sea.png", ""),
        Err("invalid wallpaper file name".to_string())
    );
    assert_eq!(
        wallpaper_file_name("/abs", "sea.png", ""),
        Err("invalid wallpaper file name".to_string())
    );
    assert_eq!(wallpaper_file_name("sub/id", "sea.png", ""), Ok("sub/id.png".to_string()));
}

#[test]
fn data_directory_from_the_configuration() {
    assert_eq!(custom_data_dir(Some("  /data/hub ".to_string())), Some("/data/hub".to_string()));
    assert_eq!(custom_data_dir(Some("   ".to_string())), None);
    assert_eq!(custom_data_dir(None), None);
}

#[test]
fn addresses_that_name_files() {
    assert!(names_a_file("/w/a.png"));
    assert!(names_a_file(" C:\\w\\a.png "));
    assert!(!names_a_file(""));
    assert!(!names_a_file("   "));
    assert!(!names_a_file(" data:image/png;base64,AAAA"));
    assert!(names_a_file("Data:x"));
}

#[test]
fn media_type_of_a_migrated_image() {
    assert_eq!(migrated_mime_type("", "image/png".to_string()), "image/png");
    assert_eq!(migrated_mime_type("  ", "image/png".to_string()), "image/png");
    assert_eq!(migrated_mime_type("image/gif", "image/png".to_string()), "image/gif");
    assert_eq!(migrated_mime_type(" image/gif ", "image/png".to_string()), " image/gif ");
}
