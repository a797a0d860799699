use mylsb::error::StegoError;

#[test]
fn message_of_each_failure() {
    assert_eq!(
        StegoError::CapacityExceeded.message(),
        "Message is too long to encode in the image"
    );
    assert_eq!(
        StegoError::ImageTooLarge.message(),
        "Image is too large to be read as 8-bit RGB"
    );
}

#[test]
fn failures_compare_by_kind() {
    assert_eq!(StegoError::CapacityExceeded, StegoError::CapacityExceeded);
    assert_ne!(StegoError::CapacityExceeded, StegoError::ImageTooLarge);
    let copy = StegoError::ImageTooLarge;
    assert_eq!(copy.clone(), StegoError::ImageTooLarge);
    assert_eq!(format!("{:?}", copy), "ImageTooLarge");
}
