//! The W3C / X11 named colors.
use crate::color::palette::Palette;
use crate::color::rgba::{RGBA, RGB};
use vstd::prelude::*;

verus! {

// Named Colors (derived from X11 rgb.txt, which is also the source of HTML/W3C/SVG names)
pub const SNOW: RGB = (255, 250, 250);
pub const GHOST_WHITE: RGB = (248, 248, 255);
pub const GHOSTWHITE: RGB = (248, 248, 255);
pub const WHITE_SMOKE: RGB = (245, 245, 245);
pub const WHITESMOKE: RGB = (245, 245, 245);
pub const GAINSBORO: RGB = (220, 220, 220);
pub const FLORAL_WHITE: RGB = (255, 250, 240);
pub const FLORALWHITE: RGB = (255, 250, 240);
pub const OLD_LACE: RGB = (253, 245, 230);
pub const OLDLACE: RGB = (253, 245, 230);
pub const LINEN: RGB = (250, 240, 230);
pub const ANTIQUE_WHITE: RGB = (250, 235, 215);
pub const ANTIQUEWHITE: RGB = (250, 235, 215);
pub const PAPAYA_WHIP: RGB = (255, 239, 213);
pub const PAPAYAWHIP: RGB = (255, 239, 213);
pub const BLANCHED_ALMOND: RGB = (255, 235, 205);
pub const BLANCHEDALMOND: RGB = (255, 235, 205);
pub const BISQUE: RGB = (255, 228, 196);
pub const PEACH_PUFF: RGB = (255, 218, 185);
pub const PEACHPUFF: RGB = (255, 218, 185);
pub const NAVAJO_WHITE: RGB = (255, 222, 173);
pub const NAVAJOWHITE: RGB = (255, 222, 173);
pub const MOCCASIN: RGB = (255, 228, 181);
pub const CORNSILK: RGB = (255, 248, 220);
pub const IVORY: RGB = (255, 255, 240);
pub const LEMON_CHIFFON: RGB = (255, 250, 205);
pub const LEMONCHIFFON: RGB = (255, 250, 205);
pub const SEASHELL: RGB = (255, 245, 238);
pub const HONEYDEW: RGB = (240, 255, 240);
pub const MINT_CREAM: RGB = (245, 255, 250);
pub const MINTCREAM: RGB = (245, 255, 250);
pub const AZURE: RGB = (240, 255, 255);
pub const ALICE_BLUE: RGB = (240, 248, 255);
pub const ALICEBLUE: RGB = (240, 248, 255);
pub const LAVENDER: RGB = (230, 230, 250);
pub const LAVENDER_BLUSH: RGB = (255, 240, 245);
pub const LAVENDERBLUSH: RGB = (255, 240, 245);
pub const MISTY_ROSE: RGB = (255, 228, 225);
pub const MISTYROSE: RGB = (255, 228, 225);
pub const WHITE: RGB = (255, 255, 255);
pub const BLACK: RGB = (0, 0, 0);
pub const DARK_SLATE: RGB = (47, 79, 79);
pub const DARKSLATEGRAY: RGB = (47, 79, 79);
pub const DARKSLATEGREY: RGB = (47, 79, 79);
pub const DIM_GRAY: RGB = (105, 105, 105);
pub const DIMGRAY: RGB = (105, 105, 105);
pub const DIM_GREY: RGB = (105, 105, 105);
pub const DIMGREY: RGB = (105, 105, 105);
pub const SLATE_GRAY: RGB = (112, 128, 144);
pub const SLATEGRAY: RGB = (112, 128, 144);
pub const SLATE_GREY: RGB = (112, 128, 144);
pub const SLATEGREY: RGB = (112, 128, 144);
pub const LIGHT_SLATE: RGB = (119, 136, 153);
pub const LIGHTSLATEGRAY: RGB = (119, 136, 153);
pub const LIGHTSLATEGREY: RGB = (119, 136, 153);
pub const GRAY: RGB = (190, 190, 190);
pub const GREY: RGB = (190, 190, 190);
pub const X11_GRAY: RGB = (190, 190, 190);
pub const X11GRAY: RGB = (190, 190, 190);
pub const X11_GREY: RGB = (190, 190, 190);
pub const X11GREY: RGB = (190, 190, 190);
pub const WEB_GRAY: RGB = (128, 128, 128);
pub const WEBGRAY: RGB = (128, 128, 128);
pub const WEB_GREY: RGB = (128, 128, 128);
pub const WEBGREY: RGB = (128, 128, 128);
pub const LIGHT_GREY: RGB = (211, 211, 211);
pub const LIGHTGREY: RGB = (211, 211, 211);
pub const LIGHT_GRAY: RGB = (211, 211, 211);
pub const LIGHTGRAY: RGB = (211, 211, 211);
pub const MIDNIGHT_BLUE: RGB = (25, 25, 112);
pub const MIDNIGHTBLUE: RGB = (25, 25, 112);
pub const NAVY: RGB = (0, 0, 128);
pub const NAVY_BLUE: RGB = (0, 0, 128);
pub const NAVYBLUE: RGB = (0, 0, 128);
pub const CORNFLOWER_BLUE: RGB = (100, 149, 237);
pub const CORNFLOWERBLUE: RGB = (100, 149, 237);
pub const DARKSLATEBLUE: RGB = (72, 61, 139);
pub const SLATE_BLUE: RGB = (106, 90, 205);
pub const SLATEBLUE: RGB = (106, 90, 205);
pub const MEDIUM_SLATE: RGB = (123, 104, 238);
pub const MEDIUMSLATEBLUE: RGB = (123, 104, 238);
pub const LIGHTSLATEBLUE: RGB = (132, 112, 255);
pub const MEDIUM_BLUE: RGB = (0, 0, 205);
pub const MEDIUMBLUE: RGB = (0, 0, 205);
pub const ROYAL_BLUE: RGB = (65, 105, 225);
pub const ROYALBLUE: RGB = (65, 105, 225);
pub const BLUE: RGB = (0, 0, 255);
pub const DODGER_BLUE: RGB = (30, 144, 255);
pub const DODGERBLUE: RGB = (30, 144, 255);
pub const DEEP_SKY: RGB = (0, 191, 255);
pub const DEEPSKYBLUE: RGB = (0, 191, 255);
pub const SKY_BLUE: RGB = (135, 206, 235);
pub const SKYBLUE: RGB = (135, 206, 235);
pub const LIGHT_SKY: RGB = (135, 206, 250);
pub const LIGHTSKYBLUE: RGB = (135, 206, 250);
pub const STEEL_BLUE: RGB = (70, 130, 180);
pub const STEELBLUE: RGB = (70, 130, 180);
pub const LIGHT_STEEL: RGB = (176, 196, 222);
pub const LIGHTSTEELBLUE: RGB = (176, 196, 222);
pub const LIGHT_BLUE: RGB = (173, 216, 230);
pub const LIGHTBLUE: RGB = (173, 216, 230);
pub const POWDER_BLUE: RGB = (176, 224, 230);
pub const POWDERBLUE: RGB = (176, 224, 230);
pub const PALE_TURQUOISE: RGB = (175, 238, 238);
pub const PALETURQUOISE: RGB = (175, 238, 238);
pub const DARK_TURQUOISE: RGB = (0, 206, 209);
pub const DARKTURQUOISE: RGB = (0, 206, 209);
pub const MEDIUM_TURQUOISE: RGB = (72, 209, 204);
pub const MEDIUMTURQUOISE: RGB = (72, 209, 204);
pub const TURQUOISE: RGB = (64, 224, 208);
pub const CYAN: RGB = (0, 255, 255);
pub const AQUA: RGB = (0, 255, 255);
pub const LIGHT_CYAN: RGB = (224, 255, 255);
pub const LIGHTCYAN: RGB = (224, 255, 255);
pub const CADET_BLUE: RGB = (95, 158, 160);
pub const CADETBLUE: RGB = (95, 158, 160);
pub const MEDIUM_AQUAMARINE: RGB = (102, 205, 170);
pub const MEDIUMAQUAMARINE: RGB = (102, 205, 170);
pub const AQUAMARINE: RGB = (127, 255, 212);
pub const DARK_GREEN: RGB = (0, 100, 0);
pub const DARKGREEN: RGB = (0, 100, 0);
pub const DARK_OLIVE: RGB = (85, 107, 47);
pub const DARKOLIVEGREEN: RGB = (85, 107, 47);
pub const DARK_SEA: RGB = (143, 188, 143);
pub const DARKSEAGREEN: RGB = (143, 188, 143);
pub const SEA_GREEN: RGB = (46, 139, 87);
pub const SEAGREEN: RGB = (46, 139, 87);
pub const MEDIUM_SEA: RGB = (60, 179, 113);
pub const MEDIUMSEAGREEN: RGB = (60, 179, 113);
pub const LIGHT_SEA: RGB = (32, 178, 170);
pub const LIGHTSEAGREEN: RGB = (32, 178, 170);
pub const PALE_GREEN: RGB = (152, 251, 152);
pub const PALEGREEN: RGB = (152, 251, 152);
pub const SPRING_GREEN: RGB = (0, 255, 127);
pub const SPRINGGREEN: RGB = (0, 255, 127);
pub const LAWN_GREEN: RGB = (124, 252, 0);
pub const LAWNGREEN: RGB = (124, 252, 0);
pub const GREEN: RGB = (0, 255, 0);
pub const LIME: RGB = (0, 255, 0);
pub const X11_GREEN: RGB = (0, 255, 0);
pub const X11GREEN: RGB = (0, 255, 0);
pub const WEB_GREEN: RGB = (0, 128, 0);
pub const WEBGREEN: RGB = (0, 128, 0);
pub const CHARTREUSE: RGB = (127, 255, 0);
pub const MEDIUM_SPRING: RGB = (0, 250, 154);
pub const MEDIUMSPRINGGREEN: RGB = (0, 250, 154);
pub const GREEN_YELLOW: RGB = (173, 255, 47);
pub const GREENYELLOW: RGB = (173, 255, 47);
pub const LIME_GREEN: RGB = (50, 205, 50);
pub const LIMEGREEN: RGB = (50, 205, 50);
pub const YELLOW_GREEN: RGB = (154, 205, 50);
pub const YELLOWGREEN: RGB = (154, 205, 50);
pub const FOREST_GREEN: RGB = (34, 139, 34);
pub const FORESTGREEN: RGB = (34, 139, 34);
pub const OLIVE_DRAB: RGB = (107, 142, 35);
pub const OLIVEDRAB: RGB = (107, 142, 35);
pub const DARK_KHAKI: RGB = (189, 183, 107);
pub const DARKKHAKI: RGB = (189, 183, 107);
pub const KHAKI: RGB = (240, 230, 140);
pub const PALE_GOLDENROD: RGB = (238, 232, 170);
pub const PALEGOLDENROD: RGB = (238, 232, 170);
pub const LIGHT_GOLDENROD: RGB = (250, 250, 210);
pub const LIGHTGOLDENRODYELLOW: RGB = (250, 250, 210);
pub const LIGHT_YELLOW: RGB = (255, 255, 224);
pub const LIGHTYELLOW: RGB = (255, 255, 224);
pub const YELLOW: RGB = (255, 255, 0);
pub const GOLD: RGB = (255, 215, 0);
pub const LIGHTGOLDENROD: RGB = (238, 221, 130);
pub const GOLDENROD: RGB = (218, 165, 32);
pub const DARK_GOLDENROD: RGB = (184, 134, 11);
pub const DARKGOLDENROD: RGB = (184, 134, 11);
pub const ROSY_BROWN: RGB = (188, 143, 143);
pub const ROSYBROWN: RGB = (188, 143, 143);
pub const INDIAN_RED: RGB = (205, 92, 92);
pub const INDIANRED: RGB = (205, 92, 92);
pub const SADDLE_BROWN: RGB = (139, 69, 19);
pub const SADDLEBROWN: RGB = (139, 69, 19);
pub const SIENNA: RGB = (160, 82, 45);
pub const PERU: RGB = (205, 133, 63);
pub const BURLYWOOD: RGB = (222, 184, 135);
pub const BEIGE: RGB = (245, 245, 220);
pub const WHEAT: RGB = (245, 222, 179);
pub const SANDY_BROWN: RGB = (244, 164, 96);
pub const SANDYBROWN: RGB = (244, 164, 96);
pub const TAN: RGB = (210, 180, 140);
pub const CHOCOLATE: RGB = (210, 105, 30);
pub const FIREBRICK_34: RGB = (178, 34, 34);
pub const BROWN_42: RGB = (165, 42, 42);
pub const DARK_SALMON: RGB = (233, 150, 122);
pub const DARKSALMON: RGB = (233, 150, 122);
pub const SALMON: RGB = (250, 128, 114);
pub const LIGHT_SALMON: RGB = (255, 160, 122);
pub const LIGHTSALMON: RGB = (255, 160, 122);
pub const ORANGE: RGB = (255, 165, 0);
pub const DARK_ORANGE: RGB = (255, 140, 0);
pub const DARKORANGE: RGB = (255, 140, 0);
pub const CORAL: RGB = (255, 127, 80);
pub const LIGHT_CORAL: RGB = (240, 128, 128);
pub const LIGHTCORAL: RGB = (240, 128, 128);
pub const TOMATO: RGB = (255, 99, 71);
pub const ORANGE_RED: RGB = (255, 69, 0);
pub const ORANGERED: RGB = (255, 69, 0);
pub const RED: RGB = (255, 0, 0);
pub const HOT_PINK: RGB = (255, 105, 180);
pub const HOTPINK: RGB = (255, 105, 180);
pub const DEEP_PINK: RGB = (255, 20, 147);
pub const DEEPPINK: RGB = (255, 20, 147);
pub const PINK: RGB = (255, 192, 203);
pub const LIGHT_PINK: RGB = (255, 182, 193);
pub const LIGHTPINK: RGB = (255, 182, 193);
pub const PALE_VIOLET: RGB = (219, 112, 147);
pub const PALEVIOLETRED: RGB = (219, 112, 147);
pub const MAROON: RGB = (176, 48, 96);
pub const X11_MAROON: RGB = (176, 48, 96);
pub const X11MAROON: RGB = (176, 48, 96);
pub const WEB_MAROON: RGB = (128, 0, 0);
pub const WEBMAROON: RGB = (128, 0, 0);
pub const MEDIUM_VIOLET: RGB = (199, 21, 133);
pub const MEDIUMVIOLETRED: RGB = (199, 21, 133);
pub const VIOLET_RED: RGB = (208, 32, 144);
pub const VIOLETRED: RGB = (208, 32, 144);
pub const MAGENTA: RGB = (255, 0, 255);
pub const FUCHSIA: RGB = (255, 0, 255);
pub const VIOLET: RGB = (238, 130, 238);
pub const PLUM: RGB = (221, 160, 221);
pub const ORCHID: RGB = (218, 112, 214);
pub const MEDIUM_ORCHID: RGB = (186, 85, 211);
pub const MEDIUMORCHID: RGB = (186, 85, 211);
pub const DARK_ORCHID: RGB = (153, 50, 204);
pub const DARKORCHID: RGB = (153, 50, 204);
pub const DARK_VIOLET: RGB = (148, 0, 211);
pub const DARKVIOLET: RGB = (148, 0, 211);
pub const BLUE_VIOLET: RGB = (138, 43, 226);
pub const BLUEVIOLET: RGB = (138, 43, 226);
pub const PURPLE: RGB = (160, 32, 240);
pub const X11_PURPLE: RGB = (160, 32, 240);
pub const X11PURPLE: RGB = (160, 32, 240);
pub const WEB_PURPLE: RGB = (128, 0, 128);
pub const WEBPURPLE: RGB = (128, 0, 128);
pub const MEDIUM_PURPLE: RGB = (147, 112, 219);
pub const MEDIUMPURPLE: RGB = (147, 112, 219);
pub const THISTLE: RGB = (216, 191, 216);
pub const SNOW1: RGB = (255, 250, 250);
pub const SNOW2: RGB = (238, 233, 233);
pub const SNOW3: RGB = (205, 201, 201);
pub const SNOW4: RGB = (139, 137, 137);
pub const SEASHELL1: RGB = (255, 245, 238);
pub const SEASHELL2: RGB = (238, 229, 222);
pub const SEASHELL3: RGB = (205, 197, 191);
pub const SEASHELL4: RGB = (139, 134, 130);
pub const ANTIQUEWHITE1: RGB = (255, 239, 219);
pub const ANTIQUEWHITE2: RGB = (238, 223, 204);
pub const ANTIQUEWHITE3: RGB = (205, 192, 176);
pub const ANTIQUEWHITE4: RGB = (139, 131, 120);
pub const BISQUE1: RGB = (255, 228, 196);
pub const BISQUE2: RGB = (238, 213, 183);
pub const BISQUE3: RGB = (205, 183, 158);
pub const BISQUE4: RGB = (139, 125, 107);
pub const PEACHPUFF1: RGB = (255, 218, 185);
pub const PEACHPUFF2: RGB = (238, 203, 173);
pub const PEACHPUFF3: RGB = (205, 175, 149);
pub const PEACHPUFF4: RGB = (139, 119, 101);
pub const NAVAJOWHITE1: RGB = (255, 222, 173);
pub const NAVAJOWHITE2: RGB = (238, 207, 161);
pub const NAVAJOWHITE3: RGB = (205, 179, 139);
pub const NAVAJOWHITE4: RGB = (139, 121, 94);
pub const LEMONCHIFFON1: RGB = (255, 250, 205);
pub const LEMONCHIFFON2: RGB = (238, 233, 191);
pub const LEMONCHIFFON3: RGB = (205, 201, 165);
pub const LEMONCHIFFON4: RGB = (139, 137, 112);
pub const CORNSILK1: RGB = (255, 248, 220);
pub const CORNSILK2: RGB = (238, 232, 205);
pub const CORNSILK3: RGB = (205, 200, 177);
pub const CORNSILK4: RGB = (139, 136, 120);
pub const IVORY1: RGB = (255, 255, 240);
pub const IVORY2: RGB = (238, 238, 224);
pub const IVORY3: RGB = (205, 205, 193);
pub const IVORY4: RGB = (139, 139, 131);
pub const HONEYDEW1: RGB = (240, 255, 240);
pub const HONEYDEW2: RGB = (224, 238, 224);
pub const HONEYDEW3: RGB = (193, 205, 193);
pub const HONEYDEW4: RGB = (131, 139, 131);
pub const LAVENDERBLUSH1: RGB = (255, 240, 245);
pub const LAVENDERBLUSH2: RGB = (238, 224, 229);
pub const LAVENDERBLUSH3: RGB = (205, 193, 197);
pub const LAVENDERBLUSH4: RGB = (139, 131, 134);
pub const MISTYROSE1: RGB = (255, 228, 225);
pub const MISTYROSE2: RGB = (238, 213, 210);
pub const MISTYROSE3: RGB = (205, 183, 181);
pub const MISTYROSE4: RGB = (139, 125, 123);
pub const AZURE1: RGB = (240, 255, 255);
pub const AZURE2: RGB = (224, 238, 238);
pub const AZURE3: RGB = (193, 205, 205);
pub const AZURE4: RGB = (131, 139, 139);
pub const SLATEBLUE1: RGB = (131, 111, 255);
pub const SLATEBLUE2: RGB = (122, 103, 238);
pub const SLATEBLUE3: RGB = (105, 89, 205);
pub const SLATEBLUE4: RGB = (71, 60, 139);
pub const ROYALBLUE1: RGB = (72, 118, 255);
pub const ROYALBLUE2: RGB = (67, 110, 238);
pub const ROYALBLUE3: RGB = (58, 95, 205);
pub const ROYALBLUE4: RGB = (39, 64, 139);
pub const BLUE1: RGB = (0, 0, 255);
pub const BLUE2: RGB = (0, 0, 238);
pub const BLUE3: RGB = (0, 0, 205);
pub const BLUE4: RGB = (0, 0, 139);
pub const DODGERBLUE1: RGB = (30, 144, 255);
pub const DODGERBLUE2: RGB = (28, 134, 238);
pub const DODGERBLUE3: RGB = (24, 116, 205);
pub const DODGERBLUE4: RGB = (16, 78, 139);
pub const STEELBLUE1: RGB = (99, 184, 255);
pub const STEELBLUE2: RGB = (92, 172, 238);
pub const STEELBLUE3: RGB = (79, 148, 205);
pub const STEELBLUE4: RGB = (54, 100, 139);
pub const DEEPSKYBLUE1: RGB = (0, 191, 255);
pub const DEEPSKYBLUE2: RGB = (0, 178, 238);
pub const DEEPSKYBLUE3: RGB = (0, 154, 205);
pub const DEEPSKYBLUE4: RGB = (0, 104, 139);
pub const SKYBLUE1: RGB = (135, 206, 255);
pub const SKYBLUE2: RGB = (126, 192, 238);
pub const SKYBLUE3: RGB = (108, 166, 205);
pub const SKYBLUE4: RGB = (74, 112, 139);
pub const LIGHTSKYBLUE1: RGB = (176, 226, 255);
pub const LIGHTSKYBLUE2: RGB = (164, 211, 238);
pub const LIGHTSKYBLUE3: RGB = (141, 182, 205);
pub const LIGHTSKYBLUE4: RGB = (96, 123, 139);
pub const SLATEGRAY1: RGB = (198, 226, 255);
pub const SLATEGRAY2: RGB = (185, 211, 238);
pub const SLATEGRAY3: RGB = (159, 182, 205);
pub const SLATEGRAY4: RGB = (108, 123, 139);
pub const LIGHTSTEELBLUE1: RGB = (202, 225, 255);
pub const LIGHTSTEELBLUE2: RGB = (188, 210, 238);
pub const LIGHTSTEELBLUE3: RGB = (162, 181, 205);
pub const LIGHTSTEELBLUE4: RGB = (110, 123, 139);
pub const LIGHTBLUE1: RGB = (191, 239, 255);
pub const LIGHTBLUE2: RGB = (178, 223, 238);
pub const LIGHTBLUE3: RGB = (154, 192, 205);
pub const LIGHTBLUE4: RGB = (104, 131, 139);
pub const LIGHTCYAN1: RGB = (224, 255, 255);
pub const LIGHTCYAN2: RGB = (209, 238, 238);
pub const LIGHTCYAN3: RGB = (180, 205, 205);
pub const LIGHTCYAN4: RGB = (122, 139, 139);
pub const PALETURQUOISE1: RGB = (187, 255, 255);
pub const PALETURQUOISE2: RGB = (174, 238, 238);
pub const PALETURQUOISE3: RGB = (150, 205, 205);
pub const PALETURQUOISE4: RGB = (102, 139, 139);
pub const CADETBLUE1: RGB = (152, 245, 255);
pub const CADETBLUE2: RGB = (142, 229, 238);
pub const CADETBLUE3: RGB = (122, 197, 205);
pub const CADETBLUE4: RGB = (83, 134, 139);
pub const TURQUOISE1: RGB = (0, 245, 255);
pub const TURQUOISE2: RGB = (0, 229, 238);
pub const TURQUOISE3: RGB = (0, 197, 205);
pub const TURQUOISE4: RGB = (0, 134, 139);
pub const CYAN1: RGB = (0, 255, 255);
pub const CYAN2: RGB = (0, 238, 238);
pub const CYAN3: RGB = (0, 205, 205);
pub const CYAN4: RGB = (0, 139, 139);
pub const DARKSLATEGRAY1: RGB = (151, 255, 255);
pub const DARKSLATEGRAY2: RGB = (141, 238, 238);
pub const DARKSLATEGRAY3: RGB = (121, 205, 205);
pub const DARKSLATEGRAY4: RGB = (82, 139, 139);
pub const AQUAMARINE1: RGB = (127, 255, 212);
pub const AQUAMARINE2: RGB = (118, 238, 198);
pub const AQUAMARINE3: RGB = (102, 205, 170);
pub const AQUAMARINE4: RGB = (69, 139, 116);
pub const DARKSEAGREEN1: RGB = (193, 255, 193);
pub const DARKSEAGREEN2: RGB = (180, 238, 180);
pub const DARKSEAGREEN3: RGB = (155, 205, 155);
pub const DARKSEAGREEN4: RGB = (105, 139, 105);
pub const SEAGREEN1: RGB = (84, 255, 159);
pub const SEAGREEN2: RGB = (78, 238, 148);
pub const SEAGREEN3: RGB = (67, 205, 128);
pub const SEAGREEN4: RGB = (46, 139, 87);
pub const PALEGREEN1: RGB = (154, 255, 154);
pub const PALEGREEN2: RGB = (144, 238, 144);
pub const PALEGREEN3: RGB = (124, 205, 124);
pub const PALEGREEN4: RGB = (84, 139, 84);
pub const SPRINGGREEN1: RGB = (0, 255, 127);
pub const SPRINGGREEN2: RGB = (0, 238, 118);
pub const SPRINGGREEN3: RGB = (0, 205, 102);
pub const SPRINGGREEN4: RGB = (0, 139, 69);
pub const GREEN1: RGB = (0, 255, 0);
pub const GREEN2: RGB = (0, 238, 0);
pub const GREEN3: RGB = (0, 205, 0);
pub const GREEN4: RGB = (0, 139, 0);
pub const CHARTREUSE1: RGB = (127, 255, 0);
pub const CHARTREUSE2: RGB = (118, 238, 0);
pub const CHARTREUSE3: RGB = (102, 205, 0);
pub const CHARTREUSE4: RGB = (69, 139, 0);
pub const OLIVEDRAB1: RGB = (192, 255, 62);
pub const OLIVEDRAB2: RGB = (179, 238, 58);
pub const OLIVEDRAB3: RGB = (154, 205, 50);
pub const OLIVEDRAB4: RGB = (105, 139, 34);
pub const DARKOLIVEGREEN1: RGB = (202, 255, 112);
pub const DARKOLIVEGREEN2: RGB = (188, 238, 104);
pub const DARKOLIVEGREEN3: RGB = (162, 205, 90);
pub const DARKOLIVEGREEN4: RGB = (110, 139, 61);
pub const KHAKI1: RGB = (255, 246, 143);
pub const KHAKI2: RGB = (238, 230, 133);
pub const KHAKI3: RGB = (205, 198, 115);
pub const KHAKI4: RGB = (139, 134, 78);
pub const LIGHTGOLDENROD1: RGB = (255, 236, 139);
pub const LIGHTGOLDENROD2: RGB = (238, 220, 130);
pub const LIGHTGOLDENROD3: RGB = (205, 190, 112);
pub const LIGHTGOLDENROD4: RGB = (139, 129, 76);
pub const LIGHTYELLOW1: RGB = (255, 255, 224);
pub const LIGHTYELLOW2: RGB = (238, 238, 209);
pub const LIGHTYELLOW3: RGB = (205, 205, 180);
pub const LIGHTYELLOW4: RGB = (139, 139, 122);
pub const YELLOW1: RGB = (255, 255, 0);
pub const YELLOW2: RGB = (238, 238, 0);
pub const YELLOW3: RGB = (205, 205, 0);
pub const YELLOW4: RGB = (139, 139, 0);
pub const GOLD1: RGB = (255, 215, 0);
pub const GOLD2: RGB = (238, 201, 0);
pub const GOLD3: RGB = (205, 173, 0);
pub const GOLD4: RGB = (139, 117, 0);
pub const GOLDENROD1: RGB = (255, 193, 37);
pub const GOLDENROD2: RGB = (238, 180, 34);
pub const GOLDENROD3: RGB = (205, 155, 29);
pub const GOLDENROD4: RGB = (139, 105, 20);
pub const DARKGOLDENROD1: RGB = (255, 185, 15);
pub const DARKGOLDENROD2: RGB = (238, 173, 14);
pub const DARKGOLDENROD3: RGB = (205, 149, 12);
pub const DARKGOLDENROD4: RGB = (139, 101, 8);
pub const ROSYBROWN1: RGB = (255, 193, 193);
pub const ROSYBROWN2: RGB = (238, 180, 180);
pub const ROSYBROWN3: RGB = (205, 155, 155);
pub const ROSYBROWN4: RGB = (139, 105, 105);
pub const INDIANRED1: RGB = (255, 106, 106);
pub const INDIANRED2: RGB = (238, 99, 99);
pub const INDIANRED3: RGB = (205, 85, 85);
pub const INDIANRED4: RGB = (139, 58, 58);
pub const SIENNA1: RGB = (255, 130, 71);
pub const SIENNA2: RGB = (238, 121, 66);
pub const SIENNA3: RGB = (205, 104, 57);
pub const SIENNA4: RGB = (139, 71, 38);
pub const BURLYWOOD1: RGB = (255, 211, 155);
pub const BURLYWOOD2: RGB = (238, 197, 145);
pub const BURLYWOOD3: RGB = (205, 170, 125);
pub const BURLYWOOD4: RGB = (139, 115, 85);
pub const WHEAT1: RGB = (255, 231, 186);
pub const WHEAT2: RGB = (238, 216, 174);
pub const WHEAT3: RGB = (205, 186, 150);
pub const WHEAT4: RGB = (139, 126, 102);
pub const TAN1: RGB = (255, 165, 79);
pub const TAN2: RGB = (238, 154, 73);
pub const TAN3: RGB = (205, 133, 63);
pub const TAN4: RGB = (139, 90, 43);
pub const CHOCOLATE1: RGB = (255, 127, 36);
pub const CHOCOLATE2: RGB = (238, 118, 33);
pub const CHOCOLATE3: RGB = (205, 102, 29);
pub const CHOCOLATE4: RGB = (139, 69, 19);
pub const FIREBRICK1: RGB = (255, 48, 48);
pub const FIREBRICK2: RGB = (238, 44, 44);
pub const FIREBRICK3: RGB = (205, 38, 38);
pub const FIREBRICK4: RGB = (139, 26, 26);
pub const BROWN1: RGB = (255, 64, 64);
pub const BROWN2: RGB = (238, 59, 59);
pub const BROWN3: RGB = (205, 51, 51);
pub const BROWN4: RGB = (139, 35, 35);
pub const SALMON1: RGB = (255, 140, 105);
pub const SALMON2: RGB = (238, 130, 98);
pub const SALMON3: RGB = (205, 112, 84);
pub const SALMON4: RGB = (139, 76, 57);
pub const LIGHTSALMON1: RGB = (255, 160, 122);
pub const LIGHTSALMON2: RGB = (238, 149, 114);
pub const LIGHTSALMON3: RGB = (205, 129, 98);
pub const LIGHTSALMON4: RGB = (139, 87, 66);
pub const ORANGE1: RGB = (255, 165, 0);
pub const ORANGE2: RGB = (238, 154, 0);
pub const ORANGE3: RGB = (205, 133, 0);
pub const ORANGE4: RGB = (139, 90, 0);
pub const DARKORANGE1: RGB = (255, 127, 0);
pub const DARKORANGE2: RGB = (238, 118, 0);
pub const DARKORANGE3: RGB = (205, 102, 0);
pub const DARKORANGE4: RGB = (139, 69, 0);
pub const CORAL1: RGB = (255, 114, 86);
pub const CORAL2: RGB = (238, 106, 80);
pub const CORAL3: RGB = (205, 91, 69);
pub const CORAL4: RGB = (139, 62, 47);
pub const TOMATO1: RGB = (255, 99, 71);
pub const TOMATO2: RGB = (238, 92, 66);
pub const TOMATO3: RGB = (205, 79, 57);
pub const TOMATO4: RGB = (139, 54, 38);
pub const ORANGERED1: RGB = (255, 69, 0);
pub const ORANGERED2: RGB = (238, 64, 0);
pub const ORANGERED3: RGB = (205, 55, 0);
pub const ORANGERED4: RGB = (139, 37, 0);
pub const RED1: RGB = (255, 0, 0);
pub const RED2: RGB = (238, 0, 0);
pub const RED3: RGB = (205, 0, 0);
pub const RED4: RGB = (139, 0, 0);
pub const DEEPPINK1: RGB = (255, 20, 147);
pub const DEEPPINK2: RGB = (238, 18, 137);
pub const DEEPPINK3: RGB = (205, 16, 118);
pub const DEEPPINK4: RGB = (139, 10, 80);
pub const HOTPINK1: RGB = (255, 110, 180);
pub const HOTPINK2: RGB = (238, 106, 167);
pub const HOTPINK3: RGB = (205, 96, 144);
pub const HOTPINK4: RGB = (139, 58, 98);
pub const PINK1: RGB = (255, 181, 197);
pub const PINK2: RGB = (238, 169, 184);
pub const PINK3: RGB = (205, 145, 158);
pub const PINK4: RGB = (139, 99, 108);
pub const LIGHTPINK1: RGB = (255, 174, 185);
pub const LIGHTPINK2: RGB = (238, 162, 173);
pub const LIGHTPINK3: RGB = (205, 140, 149);
pub const LIGHTPINK4: RGB = (139, 95, 101);
pub const PALEVIOLETRED1: RGB = (255, 130, 171);
pub const PALEVIOLETRED2: RGB = (238, 121, 159);
pub const PALEVIOLETRED3: RGB = (205, 104, 137);
pub const PALEVIOLETRED4: RGB = (139, 71, 93);
pub const MAROON1: RGB = (255, 52, 179);
pub const MAROON2: RGB = (238, 48, 167);
pub const MAROON3: RGB = (205, 41, 144);
pub const MAROON4: RGB = (139, 28, 98);
pub const VIOLETRED1: RGB = (255, 62, 150);
pub const VIOLETRED2: RGB = (238, 58, 140);
pub const VIOLETRED3: RGB = (205, 50, 120);
pub const VIOLETRED4: RGB = (139, 34, 82);
pub const MAGENTA1: RGB = (255, 0, 255);
pub const MAGENTA2: RGB = (238, 0, 238);
pub const MAGENTA3: RGB = (205, 0, 205);
pub const MAGENTA4: RGB = (139, 0, 139);
pub const ORCHID1: RGB = (255, 131, 250);
pub const ORCHID2: RGB = (238, 122, 233);
pub const ORCHID3: RGB = (205, 105, 201);
pub const ORCHID4: RGB = (139, 71, 137);
pub const PLUM1: RGB = (255, 187, 255);
pub const PLUM2: RGB = (238, 174, 238);
pub const PLUM3: RGB = (205, 150, 205);
pub const PLUM4: RGB = (139, 102, 139);
pub const MEDIUMORCHID1: RGB = (224, 102, 255);
pub const MEDIUMORCHID2: RGB = (209, 95, 238);
pub const MEDIUMORCHID3: RGB = (180, 82, 205);
pub const MEDIUMORCHID4: RGB = (122, 55, 139);
pub const DARKORCHID1: RGB = (191, 62, 255);
pub const DARKORCHID2: RGB = (178, 58, 238);
pub const DARKORCHID3: RGB = (154, 50, 205);
pub const DARKORCHID4: RGB = (104, 34, 139);
pub const PURPLE1: RGB = (155, 48, 255);
pub const PURPLE2: RGB = (145, 44, 238);
pub const PURPLE3: RGB = (125, 38, 205);
pub const PURPLE4: RGB = (85, 26, 139);
pub const MEDIUMPURPLE1: RGB = (171, 130, 255);
pub const MEDIUMPURPLE2: RGB = (159, 121, 238);
pub const MEDIUMPURPLE3: RGB = (137, 104, 205);
pub const MEDIUMPURPLE4: RGB = (93, 71, 139);
pub const THISTLE1: RGB = (255, 225, 255);
pub const THISTLE2: RGB = (238, 210, 238);
pub const THISTLE3: RGB = (205, 181, 205);
pub const THISTLE4: RGB = (139, 123, 139);
pub const GRAY0: RGB = (0, 0, 0);
pub const GREY0: RGB = (0, 0, 0);
pub const GRAY1: RGB = (3, 3, 3);
pub const GREY1: RGB = (3, 3, 3);
pub const GRAY2: RGB = (5, 5, 5);
pub const GREY2: RGB = (5, 5, 5);
pub const GRAY3: RGB = (8, 8, 8);
pub const GREY3: RGB = (8, 8, 8);
pub const GRAY4: RGB = (10, 10, 10);
pub const GREY4: RGB = (10, 10, 10);
pub const GRAY5: RGB = (13, 13, 13);
pub const GREY5: RGB = (13, 13, 13);
pub const GRAY6: RGB = (15, 15, 15);
pub const GREY6: RGB = (15, 15, 15);
pub const GRAY7: RGB = (18, 18, 18);
pub const GREY7: RGB = (18, 18, 18);
pub const GRAY8: RGB = (20, 20, 20);
pub const GREY8: RGB = (20, 20, 20);
pub const GRAY9: RGB = (23, 23, 23);
pub const GREY9: RGB = (23, 23, 23);
pub const GRAY10: RGB = (26, 26, 26);
pub const GREY10: RGB = (26, 26, 26);
pub const GRAY11: RGB = (28, 28, 28);
pub const GREY11: RGB = (28, 28, 28);
pub const GRAY12: RGB = (31, 31, 31);
pub const GREY12: RGB = (31, 31, 31);
pub const GRAY13: RGB = (33, 33, 33);
pub const GREY13: RGB = (33, 33, 33);
pub const GRAY14: RGB = (36, 36, 36);
pub const GREY14: RGB = (36, 36, 36);
pub const GRAY15: RGB = (38, 38, 38);
pub const GREY15: RGB = (38, 38, 38);
pub const GRAY16: RGB = (41, 41, 41);
pub const GREY16: RGB = (41, 41, 41);
pub const GRAY17: RGB = (43, 43, 43);
pub const GREY17: RGB = (43, 43, 43);
pub const GRAY18: RGB = (46, 46, 46);
pub const GREY18: RGB = (46, 46, 46);
pub const GRAY19: RGB = (48, 48, 48);
pub const GREY19: RGB = (48, 48, 48);
pub const GRAY20: RGB = (51, 51, 51);
pub const GREY20: RGB = (51, 51, 51);
pub const GRAY21: RGB = (54, 54, 54);
pub const GREY21: RGB = (54, 54, 54);
pub const GRAY22: RGB = (56, 56, 56);
pub const GREY22: RGB = (56, 56, 56);
pub const GRAY23: RGB = (59, 59, 59);
pub const GREY23: RGB = (59, 59, 59);
pub const GRAY24: RGB = (61, 61, 61);
pub const GREY24: RGB = (61, 61, 61);
pub const GRAY25: RGB = (64, 64, 64);
pub const GREY25: RGB = (64, 64, 64);
pub const GRAY26: RGB = (66, 66, 66);
pub const GREY26: RGB = (66, 66, 66);
pub const GRAY27: RGB = (69, 69, 69);
pub const GREY27: RGB = (69, 69, 69);
pub const GRAY28: RGB = (71, 71, 71);
pub const GREY28: RGB = (71, 71, 71);
pub const GRAY29: RGB = (74, 74, 74);
pub const GREY29: RGB = (74, 74, 74);
pub const GRAY30: RGB = (77, 77, 77);
pub const GREY30: RGB = (77, 77, 77);
pub const GRAY31: RGB = (79, 79, 79);
pub const GREY31: RGB = (79, 79, 79);
pub const GRAY32: RGB = (82, 82, 82);
pub const GREY32: RGB = (82, 82, 82);
pub const GRAY33: RGB = (84, 84, 84);
pub const GREY33: RGB = (84, 84, 84);
pub const GRAY34: RGB = (87, 87, 87);
pub const GREY34: RGB = (87, 87, 87);
pub const GRAY35: RGB = (89, 89, 89);
pub const GREY35: RGB = (89, 89, 89);
pub const GRAY36: RGB = (92, 92, 92);
pub const GREY36: RGB = (92, 92, 92);
pub const GRAY37: RGB = (94, 94, 94);
pub const GREY37: RGB = (94, 94, 94);
pub const GRAY38: RGB = (97, 97, 97);
pub const GREY38: RGB = (97, 97, 97);
pub const GRAY39: RGB = (99, 99, 99);
pub const GREY39: RGB = (99, 99, 99);
pub const GRAY40: RGB = (102, 102, 102);
pub const GREY40: RGB = (102, 102, 102);
pub const GRAY41: RGB = (105, 105, 105);
pub const GREY41: RGB = (105, 105, 105);
pub const GRAY42: RGB = (107, 107, 107);
pub const GREY42: RGB = (107, 107, 107);
pub const GRAY43: RGB = (110, 110, 110);
pub const GREY43: RGB = (110, 110, 110);
pub const GRAY44: RGB = (112, 112, 112);
pub const GREY44: RGB = (112, 112, 112);
pub const GRAY45: RGB = (115, 115, 115);
pub const GREY45: RGB = (115, 115, 115);
pub const GRAY46: RGB = (117, 117, 117);
pub const GREY46: RGB = (117, 117, 117);
pub const GRAY47: RGB = (120, 120, 120);
pub const GREY47: RGB = (120, 120, 120);
pub const GRAY48: RGB = (122, 122, 122);
pub const GREY48: RGB = (122, 122, 122);
pub const GRAY49: RGB = (125, 125, 125);
pub const GREY49: RGB = (125, 125, 125);
pub const GRAY50: RGB = (127, 127, 127);
pub const GREY50: RGB = (127, 127, 127);
pub const GRAY51: RGB = (130, 130, 130);
pub const GREY51: RGB = (130, 130, 130);
pub const GRAY52: RGB = (133, 133, 133);
pub const GREY52: RGB = (133, 133, 133);
pub const GRAY53: RGB = (135, 135, 135);
pub const GREY53: RGB = (135, 135, 135);
pub const GRAY54: RGB = (138, 138, 138);
pub const GREY54: RGB = (138, 138, 138);
pub const GRAY55: RGB = (140, 140, 140);
pub const GREY55: RGB = (140, 140, 140);
pub const GRAY56: RGB = (143, 143, 143);
pub const GREY56: RGB = (143, 143, 143);
pub const GRAY57: RGB = (145, 145, 145);
pub const GREY57: RGB = (145, 145, 145);
pub const GRAY58: RGB = (148, 148, 148);
pub const GREY58: RGB = (148, 148, 148);
pub const GRAY59: RGB = (150, 150, 150);
pub const GREY59: RGB = (150, 150, 150);
pub const GRAY60: RGB = (153, 153, 153);
pub const GREY60: RGB = (153, 153, 153);
pub const GRAY61: RGB = (156, 156, 156);
pub const GREY61: RGB = (156, 156, 156);
pub const GRAY62: RGB = (158, 158, 158);
pub const GREY62: RGB = (158, 158, 158);
pub const GRAY63: RGB = (161, 161, 161);
pub const GREY63: RGB = (161, 161, 161);
pub const GRAY64: RGB = (163, 163, 163);
pub const GREY64: RGB = (163, 163, 163);
pub const GRAY65: RGB = (166, 166, 166);
pub const GREY65: RGB = (166, 166, 166);
pub const GRAY66: RGB = (168, 168, 168);
pub const GREY66: RGB = (168, 168, 168);
pub const GRAY67: RGB = (171, 171, 171);
pub const GREY67: RGB = (171, 171, 171);
pub const GRAY68: RGB = (173, 173, 173);
pub const GREY68: RGB = (173, 173, 173);
pub const GRAY69: RGB = (176, 176, 176);
pub const GREY69: RGB = (176, 176, 176);
pub const GRAY70: RGB = (179, 179, 179);
pub const GREY70: RGB = (179, 179, 179);
pub const GRAY71: RGB = (181, 181, 181);
pub const GREY71: RGB = (181, 181, 181);
pub const GRAY72: RGB = (184, 184, 184);
pub const GREY72: RGB = (184, 184, 184);
pub const GRAY73: RGB = (186, 186, 186);
pub const GREY73: RGB = (186, 186, 186);
pub const GRAY74: RGB = (189, 189, 189);
pub const GREY74: RGB = (189, 189, 189);
pub const GRAY75: RGB = (191, 191, 191);
pub const GREY75: RGB = (191, 191, 191);
pub const GRAY76: RGB = (194, 194, 194);
pub const GREY76: RGB = (194, 194, 194);
pub const GRAY77: RGB = (196, 196, 196);
pub const GREY77: RGB = (196, 196, 196);
pub const GRAY78: RGB = (199, 199, 199);
pub const GREY78: RGB = (199, 199, 199);
pub const GRAY79: RGB = (201, 201, 201);
pub const GREY79: RGB = (201, 201, 201);
pub const GRAY80: RGB = (204, 204, 204);
pub const GREY80: RGB = (204, 204, 204);
pub const GRAY81: RGB = (207, 207, 207);
pub const GREY81: RGB = (207, 207, 207);
pub const GRAY82: RGB = (209, 209, 209);
pub const GREY82: RGB = (209, 209, 209);
pub const GRAY83: RGB = (212, 212, 212);
pub const GREY83: RGB = (212, 212, 212);
pub const GRAY84: RGB = (214, 214, 214);
pub const GREY84: RGB = (214, 214, 214);
pub const GRAY85: RGB = (217, 217, 217);
pub const GREY85: RGB = (217, 217, 217);
pub const GRAY86: RGB = (219, 219, 219);
pub const GREY86: RGB = (219, 219, 219);
pub const GRAY87: RGB = (222, 222, 222);
pub const GREY87: RGB = (222, 222, 222);
pub const GRAY88: RGB = (224, 224, 224);
pub const GREY88: RGB = (224, 224, 224);
pub const GRAY89: RGB = (227, 227, 227);
pub const GREY89: RGB = (227, 227, 227);
pub const GRAY90: RGB = (229, 229, 229);
pub const GREY90: RGB = (229, 229, 229);
pub const GRAY91: RGB = (232, 232, 232);
pub const GREY91: RGB = (232, 232, 232);
pub const GRAY92: RGB = (235, 235, 235);
pub const GREY92: RGB = (235, 235, 235);
pub const GRAY93: RGB = (237, 237, 237);
pub const GREY93: RGB = (237, 237, 237);
pub const GRAY94: RGB = (240, 240, 240);
pub const GREY94: RGB = (240, 240, 240);
pub const GRAY95: RGB = (242, 242, 242);
pub const GREY95: RGB = (242, 242, 242);
pub const GRAY96: RGB = (245, 245, 245);
pub const GREY96: RGB = (245, 245, 245);
pub const GRAY97: RGB = (247, 247, 247);
pub const GREY97: RGB = (247, 247, 247);
pub const GRAY98: RGB = (250, 250, 250);
pub const GREY98: RGB = (250, 250, 250);
pub const GRAY99: RGB = (252, 252, 252);
pub const GREY99: RGB = (252, 252, 252);
pub const GRAY100: RGB = (255, 255, 255);
pub const GREY100: RGB = (255, 255, 255);
pub const DARK_GREY: RGB = (169, 169, 169);
pub const DARKGREY: RGB = (169, 169, 169);
pub const DARK_GRAY: RGB = (169, 169, 169);
pub const DARKGRAY: RGB = (169, 169, 169);
pub const DARK_BLUE: RGB = (0, 0, 139);
pub const DARKBLUE: RGB = (0, 0, 139);
pub const DARK_CYAN: RGB = (0, 139, 139);
pub const DARKCYAN: RGB = (0, 139, 139);
pub const DARK_MAGENTA: RGB = (139, 0, 139);
pub const DARKMAGENTA: RGB = (139, 0, 139);
pub const DARK_RED: RGB = (139, 0, 0);
pub const DARKRED: RGB = (139, 0, 0);
pub const LIGHT_GREEN: RGB = (144, 238, 144);
pub const LIGHTGREEN: RGB = (144, 238, 144);
pub const CRIMSON: RGB = (220, 20, 60);
pub const INDIGO: RGB = (75, 0, 130);
pub const OLIVE: RGB = (128, 128, 0);
pub const REBECCA_PURPLE: RGB = (102, 51, 153);
pub const REBECCAPURPLE: RGB = (102, 51, 153);
pub const SILVER: RGB = (192, 192, 192);
pub const TEAL: RGB = (0, 128, 128);

/// Named colors, part 1, inserted into `m` in order.
pub open spec fn named_part_1(m: Map<Seq<char>, RGBA>) -> Map<Seq<char>, RGBA> {
    m
        .insert("none"@, RGBA(0, 0, 0, 0))
        .insert("snow"@, RGBA(255, 250, 250, 255))
        .insert("ghost_white"@, RGBA(248, 248, 255, 255))
        .insert("ghostwhite"@, RGBA(248, 248, 255, 255))
        .insert("white_smoke"@, RGBA(245, 245, 245, 255))
        .insert("whitesmoke"@, RGBA(245, 245, 245, 255))
        .insert("gainsboro"@, RGBA(220, 220, 220, 255))
        .insert("floral_white"@, RGBA(255, 250, 240, 255))
        .insert("floralwhite"@, RGBA(255, 250, 240, 255))
        .insert("old_lace"@, RGBA(253, 245, 230, 255))
        .insert("oldlace"@, RGBA(253, 245, 230, 255))
        .insert("linen"@, RGBA(250, 240, 230, 255))
        .insert("antique_white"@, RGBA(250, 235, 215, 255))
        .insert("antiquewhite"@, RGBA(250, 235, 215, 255))
        .insert("papaya_whip"@, RGBA(255, 239, 213, 255))
        .insert("papayawhip"@, RGBA(255, 239, 213, 255))
        .insert("blanched_almond"@, RGBA(255, 235, 205, 255))
        .insert("blanchedalmond"@, RGBA(255, 235, 205, 255))
        .insert("bisque"@, RGBA(255, 228, 196, 255))
        .insert("peach_puff"@, RGBA(255, 218, 185, 255))
        .insert("peachpuff"@, RGBA(255, 218, 185, 255))
        .insert("navajo_white"@, RGBA(255, 222, 173, 255))
        .insert("navajowhite"@, RGBA(255, 222, 173, 255))
        .insert("moccasin"@, RGBA(255, 228, 181, 255))
        .insert("cornsilk"@, RGBA(255, 248, 220, 255))
        .insert("ivory"@, RGBA(255, 255, 240, 255))
        .insert("lemon_chiffon"@, RGBA(255, 250, 205, 255))
        .insert("lemonchiffon"@, RGBA(255, 250, 205, 255))
        .insert("seashell"@, RGBA(255, 245, 238, 255))
        .insert("honeydew"@, RGBA(240, 255, 240, 255))
        .insert("mint_cream"@, RGBA(245, 255, 250, 255))
        .insert("mintcream"@, RGBA(245, 255, 250, 255))
        .insert("azure"@, RGBA(240, 255, 255, 255))
        .insert("alice_blue"@, RGBA(240, 248, 255, 255))
        .insert("aliceblue"@, RGBA(240, 248, 255, 255))
        .insert("lavender"@, RGBA(230, 230, 250, 255))
        .insert("lavender_blush"@, RGBA(255, 240, 245, 255))
        .insert("lavenderblush"@, RGBA(255, 240, 245, 255))
        .insert("misty_rose"@, RGBA(255, 228, 225, 255))
        .insert("mistyrose"@, RGBA(255, 228, 225, 255))
        .insert("white"@, RGBA(255, 255, 255, 255))
        .insert("black"@, RGBA(0, 0, 0, 255))
        .insert("dark_slate"@, RGBA(47, 79, 79, 255))
        .insert("darkslategray"@, RGBA(47, 79, 79, 255))
        .insert("darkslategrey"@, RGBA(47, 79, 79, 255))
        .insert("dim_gray"@, RGBA(105, 105, 105, 255))
        .insert("dimgray"@, RGBA(105, 105, 105, 255))
        .insert("dim_grey"@, RGBA(105, 105, 105, 255))
        .insert("dimgrey"@, RGBA(105, 105, 105, 255))
        .insert("slate_gray"@, RGBA(112, 128, 144, 255))
}

fn add_named_part_1(p: &mut Palette)
    requires
        old(p).wf(),
    ensures
        final(p).wf(),
        final(p).view() == named_part_1(old(p).view()),
{
    p.insert_str("none", RGBA(0, 0, 0, 0));
    p.insert_str("snow", RGBA(255, 250, 250, 255));
    p.insert_str("ghost_white", RGBA(248, 248, 255, 255));
    p.insert_str("ghostwhite", RGBA(248, 248, 255, 255));
    p.insert_str("white_smoke", RGBA(245, 245, 245, 255));
    p.insert_str("whitesmoke", RGBA(245, 245, 245, 255));
    p.insert_str("gainsboro", RGBA(220, 220, 220, 255));
    p.insert_str("floral_white", RGBA(255, 250, 240, 255));
    p.insert_str("floralwhite", RGBA(255, 250, 240, 255));
    p.insert_str("old_lace", RGBA(253, 245, 230, 255));
    p.insert_str("oldlace", RGBA(253, 245, 230, 255));
    p.insert_str("linen", RGBA(250, 240, 230, 255));
    p.insert_str("antique_white", RGBA(250, 235, 215, 255));
    p.insert_str("antiquewhite", RGBA(250, 235, 215, 255));
    p.insert_str("papaya_whip", RGBA(255, 239, 213, 255));
    p.insert_str("papayawhip", RGBA(255, 239, 213, 255));
    p.insert_str("blanched_almond", RGBA(255, 235, 205, 255));
    p.insert_str("blanchedalmond", RGBA(255, 235, 205, 255));
    p.insert_str("bisque", RGBA(255, 228, 196, 255));
    p.insert_str("peach_puff", RGBA(255, 218, 185, 255));
    p.insert_str("peachpuff", RGBA(255, 218, 185, 255));
    p.insert_str("navajo_white", RGBA(255, 222, 173, 255));
    p.insert_str("navajowhite", RGBA(255, 222, 173, 255));
    p.insert_str("moccasin", RGBA(255, 228, 181, 255));
    p.insert_str("cornsilk", RGBA(255, 248, 220, 255));
    p.insert_str("ivory", RGBA(255, 255, 240, 255));
    p.insert_str("lemon_chiffon", RGBA(255, 250, 205, 255));
    p.insert_str("lemonchiffon", RGBA(255, 250, 205, 255));
    p.insert_str("seashell", RGBA(255, 245, 238, 255));
    p.insert_str("honeydew", RGBA(240, 255, 240, 255));
    p.insert_str("mint_cream", RGBA(245, 255, 250, 255));
    p.insert_str("mintcream", RGBA(245, 255, 250, 255));
    p.insert_str("azure", RGBA(240, 255, 255, 255));
    p.insert_str("alice_blue", RGBA(240, 248, 255, 255));
    p.insert_str("aliceblue", RGBA(240, 248, 255, 255));
    p.insert_str("lavender", RGBA(230, 230, 250, 255));
    p.insert_str("lavender_blush", RGBA(255, 240, 245, 255));
    p.insert_str("lavenderblush", RGBA(255, 240, 245, 255));
    p.insert_str("misty_rose", RGBA(255, 228, 225, 255));
    p.insert_str("mistyrose", RGBA(255, 228, 225, 255));
    p.insert_str("white", RGBA(255, 255, 255, 255));
    p.insert_str("black", RGBA(0, 0, 0, 255));
    p.insert_str("dark_slate", RGBA(47, 79, 79, 255));
    p.insert_str("darkslategray", RGBA(47, 79, 79, 255));
    p.insert_str("darkslategrey", RGBA(47, 79, 79, 255));
    p.insert_str("dim_gray", RGBA(105, 105, 105, 255));
    p.insert_str("dimgray", RGBA(105, 105, 105, 255));
    p.insert_str("dim_grey", RGBA(105, 105, 105, 255));
    p.insert_str("dimgrey", RGBA(105, 105, 105, 255));
    p.insert_str("slate_gray", RGBA(112, 128, 144, 255));
}

/// Named colors, part 2, inserted into `m` in order.
pub open spec fn named_part_2(m: Map<Seq<char>, RGBA>) -> Map<Seq<char>, RGBA> {
    m
        .insert("slategray"@, RGBA(112, 128, 144, 255))
        .insert("slate_grey"@, RGBA(112, 128, 144, 255))
        .insert("slategrey"@, RGBA(112, 128, 144, 255))
        .insert("light_slate"@, RGBA(119, 136, 153, 255))
        .insert("lightslategray"@, RGBA(119, 136, 153, 255))
        .insert("lightslategrey"@, RGBA(119, 136, 153, 255))
        .insert("gray"@, RGBA(190, 190, 190, 255))
        .insert("grey"@, RGBA(190, 190, 190, 255))
        .insert("x11_gray"@, RGBA(190, 190, 190, 255))
        .insert("x11gray"@, RGBA(190, 190, 190, 255))
        .insert("x11_grey"@, RGBA(190, 190, 190, 255))
        .insert("x11grey"@, RGBA(190, 190, 190, 255))
        .insert("web_gray"@, RGBA(128, 128, 128, 255))
        .insert("webgray"@, RGBA(128, 128, 128, 255))
        .insert("web_grey"@, RGBA(128, 128, 128, 255))
        .insert("webgrey"@, RGBA(128, 128, 128, 255))
        .insert("light_grey"@, RGBA(211, 211, 211, 255))
        .insert("lightgrey"@, RGBA(211, 211, 211, 255))
        .insert("light_gray"@, RGBA(211, 211, 211, 255))
        .insert("lightgray"@, RGBA(211, 211, 211, 255))
        .insert("midnight_blue"@, RGBA(25, 25, 112, 255))
        .insert("midnightblue"@, RGBA(25, 25, 112, 255))
        .insert("navy"@, RGBA(0, 0, 128, 255))
        .insert("navy_blue"@, RGBA(0, 0, 128, 255))
        .insert("navyblue"@, RGBA(0, 0, 128, 255))
        .insert("cornflower_blue"@, RGBA(100, 149, 237, 255))
        .insert("cornflowerblue"@, RGBA(100, 149, 237, 255))
        .insert("darkslateblue"@, RGBA(72, 61, 139, 255))
        .insert("slate_blue"@, RGBA(106, 90, 205, 255))
        .insert("slateblue"@, RGBA(106, 90, 205, 255))
        .insert("medium_slate"@, RGBA(123, 104, 238, 255))
        .insert("mediumslateblue"@, RGBA(123, 104, 238, 255))
        .insert("lightslateblue"@, RGBA(132, 112, 255, 255))
        .insert("medium_blue"@, RGBA(0, 0, 205, 255))
        .insert("mediumblue"@, RGBA(0, 0, 205, 255))
        .insert("royal_blue"@, RGBA(65, 105, 225, 255))
        .insert("royalblue"@, RGBA(65, 105, 225, 255))
        .insert("blue"@, RGBA(0, 0, 255, 255))
        .insert("dodger_blue"@, RGBA(30, 144, 255, 255))
        .insert("dodgerblue"@, RGBA(30, 144, 255, 255))
        .insert("deep_sky"@, RGBA(0, 191, 255, 255))
        .insert("deepskyblue"@, RGBA(0, 191, 255, 255))
        .insert("sky_blue"@, RGBA(135, 206, 235, 255))
        .insert("skyblue"@, RGBA(135, 206, 235, 255))
        .insert("light_sky"@, RGBA(135, 206, 250, 255))
        .insert("lightskyblue"@, RGBA(135, 206, 250, 255))
        .insert("steel_blue"@, RGBA(70, 130, 180, 255))
        .insert("steelblue"@, RGBA(70, 130, 180, 255))
        .insert("light_steel"@, RGBA(176, 196, 222, 255))
        .insert("lightsteelblue"@, RGBA(176, 196, 222, 255))
}

fn add_named_part_2(p: &mut Palette)
    requires
        old(p).wf(),
    ensures
        final(p).wf(),
        final(p).view() == named_part_2(old(p).view()),
{
    p.insert_str("slategray", RGBA(112, 128, 144, 255));
    p.insert_str("slate_grey", RGBA(112, 128, 144, 255));
    p.insert_str("slategrey", RGBA(112, 128, 144, 255));
    p.insert_str("light_slate", RGBA(119, 136, 153, 255));
    p.insert_str("lightslategray", RGBA(119, 136, 153, 255));
    p.insert_str("lightslategrey", RGBA(119, 136, 153, 255));
    p.insert_str("gray", RGBA(190, 190, 190, 255));
    p.insert_str("grey", RGBA(190, 190, 190, 255));
    p.insert_str("x11_gray", RGBA(190, 190, 190, 255));
    p.insert_str("x11gray", RGBA(190, 190, 190, 255));
    p.insert_str("x11_grey", RGBA(190, 190, 190, 255));
    p.insert_str("x11grey", RGBA(190, 190, 190, 255));
    p.insert_str("web_gray", RGBA(128, 128, 128, 255));
    p.insert_str("webgray", RGBA(128, 128, 128, 255));
    p.insert_str("web_grey", RGBA(128, 128, 128, 255));
    p.insert_str("webgrey", RGBA(128, 128, 128, 255));
    p.insert_str("light_grey", RGBA(211, 211, 211, 255));
    p.insert_str("lightgrey", RGBA(211, 211, 211, 255));
    p.insert_str("light_gray", RGBA(211, 211, 211, 255));
    p.insert_str("lightgray", RGBA(211, 211, 211, 255));
    p.insert_str("midnight_blue", RGBA(25, 25, 112, 255));
    p.insert_str("midnightblue", RGBA(25, 25, 112, 255));
    p.insert_str("navy", RGBA(0, 0, 128, 255));
    p.insert_str("navy_blue", RGBA(0, 0, 128, 255));
    p.insert_str("navyblue", RGBA(0, 0, 128, 255));
    p.insert_str("cornflower_blue", RGBA(100, 149, 237, 255));
    p.insert_str("cornflowerblue", RGBA(100, 149, 237, 255));
    p.insert_str("darkslateblue", RGBA(72, 61, 139, 255));
    p.insert_str("slate_blue", RGBA(106, 90, 205, 255));
    p.insert_str("slateblue", RGBA(106, 90, 205, 255));
    p.insert_str("medium_slate", RGBA(123, 104, 238, 255));
    p.insert_str("mediumslateblue", RGBA(123, 104, 238, 255));
    p.insert_str("lightslateblue", RGBA(132, 112, 255, 255));
    p.insert_str("medium_blue", RGBA(0, 0, 205, 255));
    p.insert_str("mediumblue", RGBA(0, 0, 205, 255));
    p.insert_str("royal_blue", RGBA(65, 105, 225, 255));
    p.insert_str("royalblue", RGBA(65, 105, 225, 255));
    p.insert_str("blue", RGBA(0, 0, 255, 255));
    p.insert_str("dodger_blue", RGBA(30, 144, 255, 255));
    p.insert_str("dodgerblue", RGBA(30, 144, 255, 255));
    p.insert_str("deep_sky", RGBA(0, 191, 255, 255));
    p.insert_str("deepskyblue", RGBA(0, 191, 255, 255));
    p.insert_str("sky_blue", RGBA(135, 206, 235, 255));
    p.insert_str("skyblue", RGBA(135, 206, 235, 255));
    p.insert_str("light_sky", RGBA(135, 206, 250, 255));
    p.insert_str("lightskyblue", RGBA(135, 206, 250, 255));
    p.insert_str("steel_blue", RGBA(70, 130, 180, 255));
    p.insert_str("steelblue", RGBA(70, 130, 180, 255));
    p.insert_str("light_steel", RGBA(176, 196, 222, 255));
    p.insert_str("lightsteelblue", RGBA(176, 196, 222, 255));
}

/// Named colors, part 3, inserted into `m` in order.
pub open spec fn named_part_3(m: Map<Seq<char>, RGBA>) -> Map<Seq<char>, RGBA> {
    m
        .insert("light_blue"@, RGBA(173, 216, 230, 255))
        .insert("lightblue"@, RGBA(173, 216, 230, 255))
        .insert("powder_blue"@, RGBA(176, 224, 230, 255))
        .insert("powderblue"@, RGBA(176, 224, 230, 255))
        .insert("pale_turquoise"@, RGBA(175, 238, 238, 255))
        .insert("paleturquoise"@, RGBA(175, 238, 238, 255))
        .insert("dark_turquoise"@, RGBA(0, 206, 209, 255))
        .insert("darkturquoise"@, RGBA(0, 206, 209, 255))
        .insert("medium_turquoise"@, RGBA(72, 209, 204, 255))
        .insert("mediumturquoise"@, RGBA(72, 209, 204, 255))
        .insert("turquoise"@, RGBA(64, 224, 208, 255))
        .insert("cyan"@, RGBA(0, 255, 255, 255))
        .insert("aqua"@, RGBA(0, 255, 255, 255))
        .insert("light_cyan"@, RGBA(224, 255, 255, 255))
        .insert("lightcyan"@, RGBA(224, 255, 255, 255))
        .insert("cadet_blue"@, RGBA(95, 158, 160, 255))
        .insert("cadetblue"@, RGBA(95, 158, 160, 255))
        .insert("medium_aquamarine"@, RGBA(102, 205, 170, 255))
        .insert("mediumaquamarine"@, RGBA(102, 205, 170, 255))
        .insert("aquamarine"@, RGBA(127, 255, 212, 255))
        .insert("dark_green"@, RGBA(0, 100, 0, 255))
        .insert("darkgreen"@, RGBA(0, 100, 0, 255))
        .insert("dark_olive"@, RGBA(85, 107, 47, 255))
        .insert("darkolivegreen"@, RGBA(85, 107, 47, 255))
        .insert("dark_sea"@, RGBA(143, 188, 143, 255))
        .insert("darkseagreen"@, RGBA(143, 188, 143, 255))
        .insert("sea_green"@, RGBA(46, 139, 87, 255))
        .insert("seagreen"@, RGBA(46, 139, 87, 255))
        .insert("medium_sea"@, RGBA(60, 179, 113, 255))
        .insert("mediumseagreen"@, RGBA(60, 179, 113, 255))
        .insert("light_sea"@, RGBA(32, 178, 170, 255))
        .insert("lightseagreen"@, RGBA(32, 178, 170, 255))
        .insert("pale_green"@, RGBA(152, 251, 152, 255))
        .insert("palegreen"@, RGBA(152, 251, 152, 255))
        .insert("spring_green"@, RGBA(0, 255, 127, 255))
        .insert("springgreen"@, RGBA(0, 255, 127, 255))
        .insert("lawn_green"@, RGBA(124, 252, 0, 255))
        .insert("lawngreen"@, RGBA(124, 252, 0, 255))
        .insert("green"@, RGBA(0, 255, 0, 255))
        .insert("lime"@, RGBA(0, 255, 0, 255))
        .insert("x11_green"@, RGBA(0, 255, 0, 255))
        .insert("x11green"@, RGBA(0, 255, 0, 255))
        .insert("web_green"@, RGBA(0, 128, 0, 255))
        .insert("webgreen"@, RGBA(0, 128, 0, 255))
        .insert("chartreuse"@, RGBA(127, 255, 0, 255))
        .insert("medium_spring"@, RGBA(0, 250, 154, 255))
        .insert("mediumspringgreen"@, RGBA(0, 250, 154, 255))
        .insert("green_yellow"@, RGBA(173, 255, 47, 255))
        .insert("greenyellow"@, RGBA(173, 255, 47, 255))
        .insert("lime_green"@, RGBA(50, 205, 50, 255))
}

fn add_named_part_3(p: &mut Palette)
    requires
        old(p).wf(),
    ensures
        final(p).wf(),
        final(p).view() == named_part_3(old(p).view()),
{
    p.insert_str("light_blue", RGBA(173, 216, 230, 255));
    p.insert_str("lightblue", RGBA(173, 216, 230, 255));
    p.insert_str("powder_blue", RGBA(176, 224, 230, 255));
    p.insert_str("powderblue", RGBA(176, 224, 230, 255));
    p.insert_str("pale_turquoise", RGBA(175, 238, 238, 255));
    p.insert_str("paleturquoise", RGBA(175, 238, 238, 255));
    p.insert_str("dark_turquoise", RGBA(0, 206, 209, 255));
    p.insert_str("darkturquoise", RGBA(0, 206, 209, 255));
    p.insert_str("medium_turquoise", RGBA(72, 209, 204, 255));
    p.insert_str("mediumturquoise", RGBA(72, 209, 204, 255));
    p.insert_str("turquoise", RGBA(64, 224, 208, 255));
    p.insert_str("cyan", RGBA(0, 255, 255, 255));
    p.insert_str("aqua", RGBA(0, 255, 255, 255));
    p.insert_str("light_cyan", RGBA(224, 255, 255, 255));
    p.insert_str("lightcyan", RGBA(224, 255, 255, 255));
    p.insert_str("cadet_blue", RGBA(95, 158, 160, 255));
    p.insert_str("cadetblue", RGBA(95, 158, 160, 255));
    p.insert_str("medium_aquamarine", RGBA(102, 205, 170, 255));
    p.insert_str("mediumaquamarine", RGBA(102, 205, 170, 255));
    p.insert_str("aquamarine", RGBA(127, 255, 212, 255));
    p.insert_str("dark_green", RGBA(0, 100, 0, 255));
    p.insert_str("darkgreen", RGBA(0, 100, 0, 255));
    p.insert_str("dark_olive", RGBA(85, 107, 47, 255));
    p.insert_str("darkolivegreen", RGBA(85, 107, 47, 255));
    p.insert_str("dark_sea", RGBA(143, 188, 143, 255));
    p.insert_str("darkseagreen", RGBA(143, 188, 143, 255));
    p.insert_str("sea_green", RGBA(46, 139, 87, 255));
    p.insert_str("seagreen", RGBA(46, 139, 87, 255));
    p.insert_str("medium_sea", RGBA(60, 179, 113, 255));
    p.insert_str("mediumseagreen", RGBA(60, 179, 113, 255));
    p.insert_str("light_sea", RGBA(32, 178, 170, 255));
    p.insert_str("lightseagreen", RGBA(32, 178, 170, 255));
    p.insert_str("pale_green", RGBA(152, 251, 152, 255));
    p.insert_str("palegreen", RGBA(152, 251, 152, 255));
    p.insert_str("spring_green", RGBA(0, 255, 127, 255));
    p.insert_str("springgreen", RGBA(0, 255, 127, 255));
    p.insert_str("lawn_green", RGBA(124, 252, 0, 255));
    p.insert_str("lawngreen", RGBA(124, 252, 0, 255));
    p.insert_str("green", RGBA(0, 255, 0, 255));
    p.insert_str("lime", RGBA(0, 255, 0, 255));
    p.insert_str("x11_green", RGBA(0, 255, 0, 255));
    p.insert_str("x11green", RGBA(0, 255, 0, 255));
    p.insert_str("web_green", RGBA(0, 128, 0, 255));
    p.insert_str("webgreen", RGBA(0, 128, 0, 255));
    p.insert_str("chartreuse", RGBA(127, 255, 0, 255));
    p.insert_str("medium_spring", RGBA(0, 250, 154, 255));
    p.insert_str("mediumspringgreen", RGBA(0, 250, 154, 255));
    p.insert_str("green_yellow", RGBA(173, 255, 47, 255));
    p.insert_str("greenyellow", RGBA(173, 255, 47, 255));
    p.insert_str("lime_green", RGBA(50, 205, 50, 255));
}

/// Named colors, part 4, inserted into `m` in order.
pub open spec fn named_part_4(m: Map<Seq<char>, RGBA>) -> Map<Seq<char>, RGBA> {
    m
        .insert("limegreen"@, RGBA(50, 205, 50, 255))
        .insert("yellow_green"@, RGBA(154, 205, 50, 255))
        .insert("yellowgreen"@, RGBA(154, 205, 50, 255))
        .insert("forest_green"@, RGBA(34, 139, 34, 255))
        .insert("forestgreen"@, RGBA(34, 139, 34, 255))
        .insert("olive_drab"@, RGBA(107, 142, 35, 255))
        .insert("olivedrab"@, RGBA(107, 142, 35, 255))
        .insert("dark_khaki"@, RGBA(189, 183, 107, 255))
        .insert("darkkhaki"@, RGBA(189, 183, 107, 255))
        .insert("khaki"@, RGBA(240, 230, 140, 255))
        .insert("pale_goldenrod"@, RGBA(238, 232, 170, 255))
        .insert("palegoldenrod"@, RGBA(238, 232, 170, 255))
        .insert("light_goldenrod"@, RGBA(250, 250, 210, 255))
        .insert("lightgoldenrodyellow"@, RGBA(250, 250, 210, 255))
        .insert("light_yellow"@, RGBA(255, 255, 224, 255))
        .insert("lightyellow"@, RGBA(255, 255, 224, 255))
        .insert("yellow"@, RGBA(255, 255, 0, 255))
        .insert("gold"@, RGBA(255, 215, 0, 255))
        .insert("lightgoldenrod"@, RGBA(238, 221, 130, 255))
        .insert("goldenrod"@, RGBA(218, 165, 32, 255))
        .insert("dark_goldenrod"@, RGBA(184, 134, 11, 255))
        .insert("darkgoldenrod"@, RGBA(184, 134, 11, 255))
        .insert("rosy_brown"@, RGBA(188, 143, 143, 255))
        .insert("rosybrown"@, RGBA(188, 143, 143, 255))
        .insert("indian_red"@, RGBA(205, 92, 92, 255))
        .insert("indianred"@, RGBA(205, 92, 92, 255))
        .insert("saddle_brown"@, RGBA(139, 69, 19, 255))
        .insert("saddlebrown"@, RGBA(139, 69, 19, 255))
        .insert("sienna"@, RGBA(160, 82, 45, 255))
        .insert("peru"@, RGBA(205, 133, 63, 255))
        .insert("burlywood"@, RGBA(222, 184, 135, 255))
        .insert("beige"@, RGBA(245, 245, 220, 255))
        .insert("wheat"@, RGBA(245, 222, 179, 255))
        .insert("sandy_brown"@, RGBA(244, 164, 96, 255))
        .insert("sandybrown"@, RGBA(244, 164, 96, 255))
        .insert("tan"@, RGBA(210, 180, 140, 255))
        .insert("chocolate"@, RGBA(210, 105, 30, 255))
        .insert("firebrick_34"@, RGBA(178, 34, 34, 255))
        .insert("brown_42"@, RGBA(165, 42, 42, 255))
        .insert("dark_salmon"@, RGBA(233, 150, 122, 255))
        .insert("darksalmon"@, RGBA(233, 150, 122, 255))
        .insert("salmon"@, RGBA(250, 128, 114, 255))
        .insert("light_salmon"@, RGBA(255, 160, 122, 255))
        .insert("lightsalmon"@, RGBA(255, 160, 122, 255))
        .insert("orange"@, RGBA(255, 165, 0, 255))
        .insert("dark_orange"@, RGBA(255, 140, 0, 255))
        .insert("darkorange"@, RGBA(255, 140, 0, 255))
        .insert("coral"@, RGBA(255, 127, 80, 255))
        .insert("light_coral"@, RGBA(240, 128, 128, 255))
        .insert("lightcoral"@, RGBA(240, 128, 128, 255))
}

fn add_named_part_4(p: &mut Palette)
    requires
        old(p).wf(),
    ensures
        final(p).wf(),
        final(p).view() == named_part_4(old(p).view()),
{
    p.insert_str("limegreen", RGBA(50, 205, 50, 255));
    p.insert_str("yellow_green", RGBA(154, 205, 50, 255));
    p.insert_str("yellowgreen", RGBA(154, 205, 50, 255));
    p.insert_str("forest_green", RGBA(34, 139, 34, 255));
    p.insert_str("forestgreen", RGBA(34, 139, 34, 255));
    p.insert_str("olive_drab", RGBA(107, 142, 35, 255));
    p.insert_str("olivedrab", RGBA(107, 142, 35, 255));
    p.insert_str("dark_khaki", RGBA(189, 183, 107, 255));
    p.insert_str("darkkhaki", RGBA(189, 183, 107, 255));
    p.insert_str("khaki", RGBA(240, 230, 140, 255));
    p.insert_str("pale_goldenrod", RGBA(238, 232, 170, 255));
    p.insert_str("palegoldenrod", RGBA(238, 232, 170, 255));
    p.insert_str("light_goldenrod", RGBA(250, 250, 210, 255));
    p.insert_str("lightgoldenrodyellow", RGBA(250, 250, 210, 255));
    p.insert_str("light_yellow", RGBA(255, 255, 224, 255));
    p.insert_str("lightyellow", RGBA(255, 255, 224, 255));
    p.insert_str("yellow", RGBA(255, 255, 0, 255));
    p.insert_str("gold", RGBA(255, 215, 0, 255));
    p.insert_str("lightgoldenrod", RGBA(238, 221, 130, 255));
    p.insert_str("goldenrod", RGBA(218, 165, 32, 255));
    p.insert_str("dark_goldenrod", RGBA(184, 134, 11, 255));
    p.insert_str("darkgoldenrod", RGBA(184, 134, 11, 255));
    p.insert_str("rosy_brown", RGBA(188, 143, 143, 255));
    p.insert_str("rosybrown", RGBA(188, 143, 143, 255));
    p.insert_str("indian_red", RGBA(205, 92, 92, 255));
    p.insert_str("indianred", RGBA(205, 92, 92, 255));
    p.insert_str("saddle_brown", RGBA(139, 69, 19, 255));
    p.insert_str("saddlebrown", RGBA(139, 69, 19, 255));
    p.insert_str("sienna", RGBA(160, 82, 45, 255));
    p.insert_str("peru", RGBA(205, 133, 63, 255));
    p.insert_str("burlywood", RGBA(222, 184, 135, 255));
    p.insert_str("beige", RGBA(245, 245, 220, 255));
    p.insert_str("wheat", RGBA(245, 222, 179, 255));
    p.insert_str("sandy_brown", RGBA(244, 164, 96, 255));
    p.insert_str("sandybrown", RGBA(244, 164, 96, 255));
    p.insert_str("tan", RGBA(210, 180, 140, 255));
    p.insert_str("chocolate", RGBA(210, 105, 30, 255));
    p.insert_str("firebrick_34", RGBA(178, 34, 34, 255));
    p.insert_str("brown_42", RGBA(165, 42, 42, 255));
    p.insert_str("dark_salmon", RGBA(233, 150, 122, 255));
    p.insert_str("darksalmon", RGBA(233, 150, 122, 255));
    p.insert_str("salmon", RGBA(250, 128, 114, 255));
    p.insert_str("light_salmon", RGBA(255, 160, 122, 255));
    p.insert_str("lightsalmon", RGBA(255, 160, 122, 255));
    p.insert_str("orange", RGBA(255, 165, 0, 255));
    p.insert_str("dark_orange", RGBA(255, 140, 0, 255));
    p.insert_str("darkorange", RGBA(255, 140, 0, 255));
    p.insert_str("coral", RGBA(255, 127, 80, 255));
    p.insert_str("light_coral", RGBA(240, 128, 128, 255));
    p.insert_str("lightcoral", RGBA(240, 128, 128, 255));
}

/// Named colors, part 5, inserted into `m` in order.
pub open spec fn named_part_5(m: Map<Seq<char>, RGBA>) -> Map<Seq<char>, RGBA> {
    m
        .insert("tomato"@, RGBA(255, 99, 71, 255))
        .insert("orange_red"@, RGBA(255, 69, 0, 255))
        .insert("orangered"@, RGBA(255, 69, 0, 255))
        .insert("red"@, RGBA(255, 0, 0, 255))
        .insert("hot_pink"@, RGBA(255, 105, 180, 255))
        .insert("hotpink"@, RGBA(255, 105, 180, 255))
        .insert("deep_pink"@, RGBA(255, 20, 147, 255))
        .insert("deeppink"@, RGBA(255, 20, 147, 255))
        .insert("pink"@, RGBA(255, 192, 203, 255))
        .insert("light_pink"@, RGBA(255, 182, 193, 255))
        .insert("lightpink"@, RGBA(255, 182, 193, 255))
        .insert("pale_violet"@, RGBA(219, 112, 147, 255))
        .insert("palevioletred"@, RGBA(219, 112, 147, 255))
        .insert("maroon"@, RGBA(176, 48, 96, 255))
        .insert("x11_maroon"@, RGBA(176, 48, 96, 255))
        .insert("x11maroon"@, RGBA(176, 48, 96, 255))
        .insert("web_maroon"@, RGBA(128, 0, 0, 255))
        .insert("webmaroon"@, RGBA(128, 0, 0, 255))
        .insert("medium_violet"@, RGBA(199, 21, 133, 255))
        .insert("mediumvioletred"@, RGBA(199, 21, 133, 255))
        .insert("violet_red"@, RGBA(208, 32, 144, 255))
        .insert("violetred"@, RGBA(208, 32, 144, 255))
        .insert("magenta"@, RGBA(255, 0, 255, 255))
        .insert("fuchsia"@, RGBA(255, 0, 255, 255))
        .insert("violet"@, RGBA(238, 130, 238, 255))
        .insert("plum"@, RGBA(221, 160, 221, 255))
        .insert("orchid"@, RGBA(218, 112, 214, 255))
        .insert("medium_orchid"@, RGBA(186, 85, 211, 255))
        .insert("mediumorchid"@, RGBA(186, 85, 211, 255))
        .insert("dark_orchid"@, RGBA(153, 50, 204, 255))
        .insert("darkorchid"@, RGBA(153, 50, 204, 255))
        .insert("dark_violet"@, RGBA(148, 0, 211, 255))
        .insert("darkviolet"@, RGBA(148, 0, 211, 255))
        .insert("blue_violet"@, RGBA(138, 43, 226, 255))
        .insert("blueviolet"@, RGBA(138, 43, 226, 255))
        .insert("purple"@, RGBA(160, 32, 240, 255))
        .insert("x11_purple"@, RGBA(160, 32, 240, 255))
        .insert("x11purple"@, RGBA(160, 32, 240, 255))
        .insert("web_purple"@, RGBA(128, 0, 128, 255))
        .insert("webpurple"@, RGBA(128, 0, 128, 255))
        .insert("medium_purple"@, RGBA(147, 112, 219, 255))
        .insert("mediumpurple"@, RGBA(147, 112, 219, 255))
        .insert("thistle"@, RGBA(216, 191, 216, 255))
        .insert("snow1"@, RGBA(255, 250, 250, 255))
        .insert("snow2"@, RGBA(238, 233, 233, 255))
        .insert("snow3"@, RGBA(205, 201, 201, 255))
        .insert("snow4"@, RGBA(139, 137, 137, 255))
        .insert("seashell1"@, RGBA(255, 245, 238, 255))
        .insert("seashell2"@, RGBA(238, 229, 222, 255))
        .insert("seashell3"@, RGBA(205, 197, 191, 255))
}

fn add_named_part_5(p: &mut Palette)
    requires
        old(p).wf(),
    ensures
        final(p).wf(),
        final(p).view() == named_part_5(old(p).view()),
{
    p.insert_str("tomato", RGBA(255, 99, 71, 255));
    p.insert_str("orange_red", RGBA(255, 69, 0, 255));
    p.insert_str("orangered", RGBA(255, 69, 0, 255));
    p.insert_str("red", RGBA(255, 0, 0, 255));
    p.insert_str("hot_pink", RGBA(255, 105, 180, 255));
    p.insert_str("hotpink", RGBA(255, 105, 180, 255));
    p.insert_str("deep_pink", RGBA(255, 20, 147, 255));
    p.insert_str("deeppink", RGBA(255, 20, 147, 255));
    p.insert_str("pink", RGBA(255, 192, 203, 255));
    p.insert_str("light_pink", RGBA(255, 182, 193, 255));
    p.insert_str("lightpink", RGBA(255, 182, 193, 255));
    p.insert_str("pale_violet", RGBA(219, 112, 147, 255));
    p.insert_str("palevioletred", RGBA(219, 112, 147, 255));
    p.insert_str("maroon", RGBA(176, 48, 96, 255));
    p.insert_str("x11_maroon", RGBA(176, 48, 96, 255));
    p.insert_str("x11maroon", RGBA(176, 48, 96, 255));
    p.insert_str("web_maroon", RGBA(128, 0, 0, 255));
    p.insert_str("webmaroon", RGBA(128, 0, 0, 255));
    p.insert_str("medium_violet", RGBA(199, 21, 133, 255));
    p.insert_str("mediumvioletred", RGBA(199, 21, 133, 255));
    p.insert_str("violet_red", RGBA(208, 32, 144, 255));
    p.insert_str("violetred", RGBA(208, 32, 144, 255));
    p.insert_str("magenta", RGBA(255, 0, 255, 255));
    p.insert_str("fuchsia", RGBA(255, 0, 255, 255));
    p.insert_str("violet", RGBA(238, 130, 238, 255));
    p.insert_str("plum", RGBA(221, 160, 221, 255));
    p.insert_str("orchid", RGBA(218, 112, 214, 255));
    p.insert_str("medium_orchid", RGBA(186, 85, 211, 255));
    p.insert_str("mediumorchid", RGBA(186, 85, 211, 255));
    p.insert_str("dark_orchid", RGBA(153, 50, 204, 255));
    p.insert_str("darkorchid", RGBA(153, 50, 204, 255));
    p.insert_str("dark_violet", RGBA(148, 0, 211, 255));
    p.insert_str("darkviolet", RGBA(148, 0, 211, 255));
    p.insert_str("blue_violet", RGBA(138, 43, 226, 255));
    p.insert_str("blueviolet", RGBA(138, 43, 226, 255));
    p.insert_str("purple", RGBA(160, 32, 240, 255));
    p.insert_str("x11_purple", RGBA(160, 32, 240, 255));
    p.insert_str("x11purple", RGBA(160, 32, 240, 255));
    p.insert_str("web_purple", RGBA(128, 0, 128, 255));
    p.insert_str("webpurple", RGBA(128, 0, 128, 255));
    p.insert_str("medium_purple", RGBA(147, 112, 219, 255));
    p.insert_str("mediumpurple", RGBA(147, 112, 219, 255));
    p.insert_str("thistle", RGBA(216, 191, 216, 255));
    p.insert_str("snow1", RGBA(255, 250, 250, 255));
    p.insert_str("snow2", RGBA(238, 233, 233, 255));
    p.insert_str("snow3", RGBA(205, 201, 201, 255));
    p.insert_str("snow4", RGBA(139, 137, 137, 255));
    p.insert_str("seashell1", RGBA(255, 245, 238, 255));
    p.insert_str("seashell2", RGBA(238, 229, 222, 255));
    p.insert_str("seashell3", RGBA(205, 197, 191, 255));
}

/// Named colors, part 6, inserted into `m` in order.
pub open spec fn named_part_6(m: Map<Seq<char>, RGBA>) -> Map<Seq<char>, RGBA> {
    m
        .insert("seashell4"@, RGBA(139, 134, 130, 255))
        .insert("antiquewhite1"@, RGBA(255, 239, 219, 255))
        .insert("antiquewhite2"@, RGBA(238, 223, 204, 255))
        .insert("antiquewhite3"@, RGBA(205, 192, 176, 255))
        .insert("antiquewhite4"@, RGBA(139, 131, 120, 255))
        .insert("bisque1"@, RGBA(255, 228, 196, 255))
        .insert("bisque2"@, RGBA(238, 213, 183, 255))
        .insert("bisque3"@, RGBA(205, 183, 158, 255))
        .insert("bisque4"@, RGBA(139, 125, 107, 255))
        .insert("peachpuff1"@, RGBA(255, 218, 185, 255))
        .insert("peachpuff2"@, RGBA(238, 203, 173, 255))
        .insert("peachpuff3"@, RGBA(205, 175, 149, 255))
        .insert("peachpuff4"@, RGBA(139, 119, 101, 255))
        .insert("navajowhite1"@, RGBA(255, 222, 173, 255))
        .insert("navajowhite2"@, RGBA(238, 207, 161, 255))
        .insert("navajowhite3"@, RGBA(205, 179, 139, 255))
        .insert("navajowhite4"@, RGBA(139, 121, 94, 255))
        .insert("lemonchiffon1"@, RGBA(255, 250, 205, 255))
        .insert("lemonchiffon2"@, RGBA(238, 233, 191, 255))
        .insert("lemonchiffon3"@, RGBA(205, 201, 165, 255))
        .insert("lemonchiffon4"@, RGBA(139, 137, 112, 255))
        .insert("cornsilk1"@, RGBA(255, 248, 220, 255))
        .insert("cornsilk2"@, RGBA(238, 232, 205, 255))
        .insert("cornsilk3"@, RGBA(205, 200, 177, 255))
        .insert("cornsilk4"@, RGBA(139, 136, 120, 255))
        .insert("ivory1"@, RGBA(255, 255, 240, 255))
        .insert("ivory2"@, RGBA(238, 238, 224, 255))
        .insert("ivory3"@, RGBA(205, 205, 193, 255))
        .insert("ivory4"@, RGBA(139, 139, 131, 255))
        .insert("honeydew1"@, RGBA(240, 255, 240, 255))
        .insert("honeydew2"@, RGBA(224, 238, 224, 255))
        .insert("honeydew3"@, RGBA(193, 205, 193, 255))
        .insert("honeydew4"@, RGBA(131, 139, 131, 255))
        .insert("lavenderblush1"@, RGBA(255, 240, 245, 255))
        .insert("lavenderblush2"@, RGBA(238, 224, 229, 255))
        .insert("lavenderblush3"@, RGBA(205, 193, 197, 255))
        .insert("lavenderblush4"@, RGBA(139, 131, 134, 255))
        .insert("mistyrose1"@, RGBA(255, 228, 225, 255))
        .insert("mistyrose2"@, RGBA(238, 213, 210, 255))
        .insert("mistyrose3"@, RGBA(205, 183, 181, 255))
        .insert("mistyrose4"@, RGBA(139, 125, 123, 255))
        .insert("azure1"@, RGBA(240, 255, 255, 255))
        .insert("azure2"@, RGBA(224, 238, 238, 255))
        .insert("azure3"@, RGBA(193, 205, 205, 255))
        .insert("azure4"@, RGBA(131, 139, 139, 255))
        .insert("slateblue1"@, RGBA(131, 111, 255, 255))
        .insert("slateblue2"@, RGBA(122, 103, 238, 255))
        .insert("slateblue3"@, RGBA(105, 89, 205, 255))
        .insert("slateblue4"@, RGBA(71, 60, 139, 255))
        .insert("royalblue1"@, RGBA(72, 118, 255, 255))
}

fn add_named_part_6(p: &mut Palette)
    requires
        old(p).wf(),
    ensures
        final(p).wf(),
        final(p).view() == named_part_6(old(p).view()),
{
    p.insert_str("seashell4", RGBA(139, 134, 130, 255));
    p.insert_str("antiquewhite1", RGBA(255, 239, 219, 255));
    p.insert_str("antiquewhite2", RGBA(238, 223, 204, 255));
    p.insert_str("antiquewhite3", RGBA(205, 192, 176, 255));
    p.insert_str("antiquewhite4", RGBA(139, 131, 120, 255));
    p.insert_str("bisque1", RGBA(255, 228, 196, 255));
    p.insert_str("bisque2", RGBA(238, 213, 183, 255));
    p.insert_str("bisque3", RGBA(205, 183, 158, 255));
    p.insert_str("bisque4", RGBA(139, 125, 107, 255));
    p.insert_str("peachpuff1", RGBA(255, 218, 185, 255));
    p.insert_str("peachpuff2", RGBA(238, 203, 173, 255));
    p.insert_str("peachpuff3", RGBA(205, 175, 149, 255));
    p.insert_str("peachpuff4", RGBA(139, 119, 101, 255));
    p.insert_str("navajowhite1", RGBA(255, 222, 173, 255));
    p.insert_str("navajowhite2", RGBA(238, 207, 161, 255));
    p.insert_str("navajowhite3", RGBA(205, 179, 139, 255));
    p.insert_str("navajowhite4", RGBA(139, 121, 94, 255));
    p.insert_str("lemonchiffon1", RGBA(255, 250, 205, 255));
    p.insert_str("lemonchiffon2", RGBA(238, 233, 191, 255));
    p.insert_str("lemonchiffon3", RGBA(205, 201, 165, 255));
    p.insert_str("lemonchiffon4", RGBA(139, 137, 112, 255));
    p.insert_str("cornsilk1", RGBA(255, 248, 220, 255));
    p.insert_str("cornsilk2", RGBA(238, 232, 205, 255));
    p.insert_str("cornsilk3", RGBA(205, 200, 177, 255));
    p.insert_str("cornsilk4", RGBA(139, 136, 120, 255));
    p.insert_str("ivory1", RGBA(255, 255, 240, 255));
    p.insert_str("ivory2", RGBA(238, 238, 224, 255));
    p.insert_str("ivory3", RGBA(205, 205, 193, 255));
    p.insert_str("ivory4", RGBA(139, 139, 131, 255));
    p.insert_str("honeydew1", RGBA(240, 255, 240, 255));
    p.insert_str("honeydew2", RGBA(224, 238, 224, 255));
    p.insert_str("honeydew3", RGBA(193, 205, 193, 255));
    p.insert_str("honeydew4", RGBA(131, 139, 131, 255));
    p.insert_str("lavenderblush1", RGBA(255, 240, 245, 255));
    p.insert_str("lavenderblush2", RGBA(238, 224, 229, 255));
    p.insert_str("lavenderblush3", RGBA(205, 193, 197, 255));
    p.insert_str("lavenderblush4", RGBA(139, 131, 134, 255));
    p.insert_str("mistyrose1", RGBA(255, 228, 225, 255));
    p.insert_str("mistyrose2", RGBA(238, 213, 210, 255));
    p.insert_str("mistyrose3", RGBA(205, 183, 181, 255));
    p.insert_str("mistyrose4", RGBA(139, 125, 123, 255));
    p.insert_str("azure1", RGBA(240, 255, 255, 255));
    p.insert_str("azure2", RGBA(224, 238, 238, 255));
    p.insert_str("azure3", RGBA(193, 205, 205, 255));
    p.insert_str("azure4", RGBA(131, 139, 139, 255));
    p.insert_str("slateblue1", RGBA(131, 111, 255, 255));
    p.insert_str("slateblue2", RGBA(122, 103, 238, 255));
    p.insert_str("slateblue3", RGBA(105, 89, 205, 255));
    p.insert_str("slateblue4", RGBA(71, 60, 139, 255));
    p.insert_str("royalblue1", RGBA(72, 118, 255, 255));
}

/// Named colors, part 7, inserted into `m` in order.
pub open spec fn named_part_7(m: Map<Seq<char>, RGBA>) -> Map<Seq<char>, RGBA> {
    m
        .insert("royalblue2"@, RGBA(67, 110, 238, 255))
        .insert("royalblue3"@, RGBA(58, 95, 205, 255))
        .insert("royalblue4"@, RGBA(39, 64, 139, 255))
        .insert("blue1"@, RGBA(0, 0, 255, 255))
        .insert("blue2"@, RGBA(0, 0, 238, 255))
        .insert("blue3"@, RGBA(0, 0, 205, 255))
        .insert("blue4"@, RGBA(0, 0, 139, 255))
        .insert("dodgerblue1"@, RGBA(30, 144, 255, 255))
        .insert("dodgerblue2"@, RGBA(28, 134, 238, 255))
        .insert("dodgerblue3"@, RGBA(24, 116, 205, 255))
        .insert("dodgerblue4"@, RGBA(16, 78, 139, 255))
        .insert("steelblue1"@, RGBA(99, 184, 255, 255))
        .insert("steelblue2"@, RGBA(92, 172, 238, 255))
        .insert("steelblue3"@, RGBA(79, 148, 205, 255))
        .insert("steelblue4"@, RGBA(54, 100, 139, 255))
        .insert("deepskyblue1"@, RGBA(0, 191, 255, 255))
        .insert("deepskyblue2"@, RGBA(0, 178, 238, 255))
        .insert("deepskyblue3"@, RGBA(0, 154, 205, 255))
        .insert("deepskyblue4"@, RGBA(0, 104, 139, 255))
        .insert("skyblue1"@, RGBA(135, 206, 255, 255))
        .insert("skyblue2"@, RGBA(126, 192, 238, 255))
        .insert("skyblue3"@, RGBA(108, 166, 205, 255))
        .insert("skyblue4"@, RGBA(74, 112, 139, 255))
        .insert("lightskyblue1"@, RGBA(176, 226, 255, 255))
        .insert("lightskyblue2"@, RGBA(164, 211, 238, 255))
        .insert("lightskyblue3"@, RGBA(141, 182, 205, 255))
        .insert("lightskyblue4"@, RGBA(96, 123, 139, 255))
        .insert("slategray1"@, RGBA(198, 226, 255, 255))
        .insert("slategray2"@, RGBA(185, 211, 238, 255))
        .insert("slategray3"@, RGBA(159, 182, 205, 255))
        .insert("slategray4"@, RGBA(108, 123, 139, 255))
        .insert("lightsteelblue1"@, RGBA(202, 225, 255, 255))
        .insert("lightsteelblue2"@, RGBA(188, 210, 238, 255))
        .insert("lightsteelblue3"@, RGBA(162, 181, 205, 255))
        .insert("lightsteelblue4"@, RGBA(110, 123, 139, 255))
        .insert("lightblue1"@, RGBA(191, 239, 255, 255))
        .insert("lightblue2"@, RGBA(178, 223, 238, 255))
        .insert("lightblue3"@, RGBA(154, 192, 205, 255))
        .insert("lightblue4"@, RGBA(104, 131, 139, 255))
        .insert("lightcyan1"@, RGBA(224, 255, 255, 255))
        .insert("lightcyan2"@, RGBA(209, 238, 238, 255))
        .insert("lightcyan3"@, RGBA(180, 205, 205, 255))
        .insert("lightcyan4"@, RGBA(122, 139, 139, 255))
        .insert("paleturquoise1"@, RGBA(187, 255, 255, 255))
        .insert("paleturquoise2"@, RGBA(174, 238, 238, 255))
        .insert("paleturquoise3"@, RGBA(150, 205, 205, 255))
        .insert("paleturquoise4"@, RGBA(102, 139, 139, 255))
        .insert("cadetblue1"@, RGBA(152, 245, 255, 255))
        .insert("cadetblue2"@, RGBA(142, 229, 238, 255))
        .insert("cadetblue3"@, RGBA(122, 197, 205, 255))
}

fn add_named_part_7(p: &mut Palette)
    requires
        old(p).wf(),
    ensures
        final(p).wf(),
        final(p).view() == named_part_7(old(p).view()),
{
    p.insert_str("royalblue2", RGBA(67, 110, 238, 255));
    p.insert_str("royalblue3", RGBA(58, 95, 205, 255));
    p.insert_str("royalblue4", RGBA(39, 64, 139, 255));
    p.insert_str("blue1", RGBA(0, 0, 255, 255));
    p.insert_str("blue2", RGBA(0, 0, 238, 255));
    p.insert_str("blue3", RGBA(0, 0, 205, 255));
    p.insert_str("blue4", RGBA(0, 0, 139, 255));
    p.insert_str("dodgerblue1", RGBA(30, 144, 255, 255));
    p.insert_str("dodgerblue2", RGBA(28, 134, 238, 255));
    p.insert_str("dodgerblue3", RGBA(24, 116, 205, 255));
    p.insert_str("dodgerblue4", RGBA(16, 78, 139, 255));
    p.insert_str("steelblue1", RGBA(99, 184, 255, 255));
    p.insert_str("steelblue2", RGBA(92, 172, 238, 255));
    p.insert_str("steelblue3", RGBA(79, 148, 205, 255));
    p.insert_str("steelblue4", RGBA(54, 100, 139, 255));
    p.insert_str("deepskyblue1", RGBA(0, 191, 255, 255));
    p.insert_str("deepskyblue2", RGBA(0, 178, 238, 255));
    p.insert_str("deepskyblue3", RGBA(0, 154, 205, 255));
    p.insert_str("deepskyblue4", RGBA(0, 104, 139, 255));
    p.insert_str("skyblue1", RGBA(135, 206, 255, 255));
    p.insert_str("skyblue2", RGBA(126, 192, 238, 255));
    p.insert_str("skyblue3", RGBA(108, 166, 205, 255));
    p.insert_str("skyblue4", RGBA(74, 112, 139, 255));
    p.insert_str("lightskyblue1", RGBA(176, 226, 255, 255));
    p.insert_str("lightskyblue2", RGBA(164, 211, 238, 255));
    p.insert_str("lightskyblue3", RGBA(141, 182, 205, 255));
    p.insert_str("lightskyblue4", RGBA(96, 123, 139, 255));
    p.insert_str("slategray1", RGBA(198, 226, 255, 255));
    p.insert_str("slategray2", RGBA(185, 211, 238, 255));
    p.insert_str("slategray3", RGBA(159, 182, 205, 255));
    p.insert_str("slategray4", RGBA(108, 123, 139, 255));
    p.insert_str("lightsteelblue1", RGBA(202, 225, 255, 255));
    p.insert_str("lightsteelblue2", RGBA(188, 210, 238, 255));
    p.insert_str("lightsteelblue3", RGBA(162, 181, 205, 255));
    p.insert_str("lightsteelblue4", RGBA(110, 123, 139, 255));
    p.insert_str("lightblue1", RGBA(191, 239, 255, 255));
    p.insert_str("lightblue2", RGBA(178, 223, 238, 255));
    p.insert_str("lightblue3", RGBA(154, 192, 205, 255));
    p.insert_str("lightblue4", RGBA(104, 131, 139, 255));
    p.insert_str("lightcyan1", RGBA(224, 255, 255, 255));
    p.insert_str("lightcyan2", RGBA(209, 238, 238, 255));
    p.insert_str("lightcyan3", RGBA(180, 205, 205, 255));
    p.insert_str("lightcyan4", RGBA(122, 139, 139, 255));
    p.insert_str("paleturquoise1", RGBA(187, 255, 255, 255));
    p.insert_str("paleturquoise2", RGBA(174, 238, 238, 255));
    p.insert_str("paleturquoise3", RGBA(150, 205, 205, 255));
    p.insert_str("paleturquoise4", RGBA(102, 139, 139, 255));
    p.insert_str("cadetblue1", RGBA(152, 245, 255, 255));
    p.insert_str("cadetblue2", RGBA(142, 229, 238, 255));
    p.insert_str("cadetblue3", RGBA(122, 197, 205, 255));
}

/// Named colors, part 8, inserted into `m` in order.
pub open spec fn named_part_8(m: Map<Seq<char>, RGBA>) -> Map<Seq<char>, RGBA> {
    m
        .insert("cadetblue4"@, RGBA(83, 134, 139, 255))
        .insert("turquoise1"@, RGBA(0, 245, 255, 255))
        .insert("turquoise2"@, RGBA(0, 229, 238, 255))
        .insert("turquoise3"@, RGBA(0, 197, 205, 255))
        .insert("turquoise4"@, RGBA(0, 134, 139, 255))
        .insert("cyan1"@, RGBA(0, 255, 255, 255))
        .insert("cyan2"@, RGBA(0, 238, 238, 255))
        .insert("cyan3"@, RGBA(0, 205, 205, 255))
        .insert("cyan4"@, RGBA(0, 139, 139, 255))
        .insert("darkslategray1"@, RGBA(151, 255, 255, 255))
        .insert("darkslategray2"@, RGBA(141, 238, 238, 255))
        .insert("darkslategray3"@, RGBA(121, 205, 205, 255))
        .insert("darkslategray4"@, RGBA(82, 139, 139, 255))
        .insert("aquamarine1"@, RGBA(127, 255, 212, 255))
        .insert("aquamarine2"@, RGBA(118, 238, 198, 255))
        .insert("aquamarine3"@, RGBA(102, 205, 170, 255))
        .insert("aquamarine4"@, RGBA(69, 139, 116, 255))
        .insert("darkseagreen1"@, RGBA(193, 255, 193, 255))
        .insert("darkseagreen2"@, RGBA(180, 238, 180, 255))
        .insert("darkseagreen3"@, RGBA(155, 205, 155, 255))
        .insert("darkseagreen4"@, RGBA(105, 139, 105, 255))
        .insert("seagreen1"@, RGBA(84, 255, 159, 255))
        .insert("seagreen2"@, RGBA(78, 238, 148, 255))
        .insert("seagreen3"@, RGBA(67, 205, 128, 255))
        .insert("seagreen4"@, RGBA(46, 139, 87, 255))
        .insert("palegreen1"@, RGBA(154, 255, 154, 255))
        .insert("palegreen2"@, RGBA(144, 238, 144, 255))
        .insert("palegreen3"@, RGBA(124, 205, 124, 255))
        .insert("palegreen4"@, RGBA(84, 139, 84, 255))
        .insert("springgreen1"@, RGBA(0, 255, 127, 255))
        .insert("springgreen2"@, RGBA(0, 238, 118, 255))
        .insert("springgreen3"@, RGBA(0, 205, 102, 255))
        .insert("springgreen4"@, RGBA(0, 139, 69, 255))
        .insert("green1"@, RGBA(0, 255, 0, 255))
        .insert("green2"@, RGBA(0, 238, 0, 255))
        .insert("green3"@, RGBA(0, 205, 0, 255))
        .insert("green4"@, RGBA(0, 139, 0, 255))
        .insert("chartreuse1"@, RGBA(127, 255, 0, 255))
        .insert("chartreuse2"@, RGBA(118, 238, 0, 255))
        .insert("chartreuse3"@, RGBA(102, 205, 0, 255))
        .insert("chartreuse4"@, RGBA(69, 139, 0, 255))
        .insert("olivedrab1"@, RGBA(192, 255, 62, 255))
        .insert("olivedrab2"@, RGBA(179, 238, 58, 255))
        .insert("olivedrab3"@, RGBA(154, 205, 50, 255))
        .insert("olivedrab4"@, RGBA(105, 139, 34, 255))
        .insert("darkolivegreen1"@, RGBA(202, 255, 112, 255))
        .insert("darkolivegreen2"@, RGBA(188, 238, 104, 255))
        .insert("darkolivegreen3"@, RGBA(162, 205, 90, 255))
        .insert("darkolivegreen4"@, RGBA(110, 139, 61, 255))
        .insert("khaki1"@, RGBA(255, 246, 143, 255))
}

fn add_named_part_8(p: &mut Palette)
    requires
        old(p).wf(),
    ensures
        final(p).wf(),
        final(p).view() == named_part_8(old(p).view()),
{
    p.insert_str("cadetblue4", RGBA(83, 134, 139, 255));
    p.insert_str("turquoise1", RGBA(0, 245, 255, 255));
    p.insert_str("turquoise2", RGBA(0, 229, 238, 255));
    p.insert_str("turquoise3", RGBA(0, 197, 205, 255));
    p.insert_str("turquoise4", RGBA(0, 134, 139, 255));
    p.insert_str("cyan1", RGBA(0, 255, 255, 255));
    p.insert_str("cyan2", RGBA(0, 238, 238, 255));
    p.insert_str("cyan3", RGBA(0, 205, 205, 255));
    p.insert_str("cyan4", RGBA(0, 139, 139, 255));
    p.insert_str("darkslategray1", RGBA(151, 255, 255, 255));
    p.insert_str("darkslategray2", RGBA(141, 238, 238, 255));
    p.insert_str("darkslategray3", RGBA(121, 205, 205, 255));
    p.insert_str("darkslategray4", RGBA(82, 139, 139, 255));
    p.insert_str("aquamarine1", RGBA(127, 255, 212, 255));
    p.insert_str("aquamarine2", RGBA(118, 238, 198, 255));
    p.insert_str("aquamarine3", RGBA(102, 205, 170, 255));
    p.insert_str("aquamarine4", RGBA(69, 139, 116, 255));
    p.insert_str("darkseagreen1", RGBA(193, 255, 193, 255));
    p.insert_str("darkseagreen2", RGBA(180, 238, 180, 255));
    p.insert_str("darkseagreen3", RGBA(155, 205, 155, 255));
    p.insert_str("darkseagreen4", RGBA(105, 139, 105, 255));
    p.insert_str("seagreen1", RGBA(84, 255, 159, 255));
    p.insert_str("seagreen2", RGBA(78, 238, 148, 255));
    p.insert_str("seagreen3", RGBA(67, 205, 128, 255));
    p.insert_str("seagreen4", RGBA(46, 139, 87, 255));
    p.insert_str("palegreen1", RGBA(154, 255, 154, 255));
    p.insert_str("palegreen2", RGBA(144, 238, 144, 255));
    p.insert_str("palegreen3", RGBA(124, 205, 124, 255));
    p.insert_str("palegreen4", RGBA(84, 139, 84, 255));
    p.insert_str("springgreen1", RGBA(0, 255, 127, 255));
    p.insert_str("springgreen2", RGBA(0, 238, 118, 255));
    p.insert_str("springgreen3", RGBA(0, 205, 102, 255));
    p.insert_str("springgreen4", RGBA(0, 139, 69, 255));
    p.insert_str("green1", RGBA(0, 255, 0, 255));
    p.insert_str("green2", RGBA(0, 238, 0, 255));
    p.insert_str("green3", RGBA(0, 205, 0, 255));
    p.insert_str("green4", RGBA(0, 139, 0, 255));
    p.insert_str("chartreuse1", RGBA(127, 255, 0, 255));
    p.insert_str("chartreuse2", RGBA(118, 238, 0, 255));
    p.insert_str("chartreuse3", RGBA(102, 205, 0, 255));
    p.insert_str("chartreuse4", RGBA(69, 139, 0, 255));
    p.insert_str("olivedrab1", RGBA(192, 255, 62, 255));
    p.insert_str("olivedrab2", RGBA(179, 238, 58, 255));
    p.insert_str("olivedrab3", RGBA(154, 205, 50, 255));
    p.insert_str("olivedrab4", RGBA(105, 139, 34, 255));
    p.insert_str("darkolivegreen1", RGBA(202, 255, 112, 255));
    p.insert_str("darkolivegreen2", RGBA(188, 238, 104, 255));
    p.insert_str("darkolivegreen3", RGBA(162, 205, 90, 255));
    p.insert_str("darkolivegreen4", RGBA(110, 139, 61, 255));
    p.insert_str("khaki1", RGBA(255, 246, 143, 255));
}

/// Named colors, part 9, inserted into `m` in order.
pub open spec fn named_part_9(m: Map<Seq<char>, RGBA>) -> Map<Seq<char>, RGBA> {
    m
        .insert("khaki2"@, RGBA(238, 230, 133, 255))
        .insert("khaki3"@, RGBA(205, 198, 115, 255))
        .insert("khaki4"@, RGBA(139, 134, 78, 255))
        .insert("lightgoldenrod1"@, RGBA(255, 236, 139, 255))
        .insert("lightgoldenrod2"@, RGBA(238, 220, 130, 255))
        .insert("lightgoldenrod3"@, RGBA(205, 190, 112, 255))
        .insert("lightgoldenrod4"@, RGBA(139, 129, 76, 255))
        .insert("lightyellow1"@, RGBA(255, 255, 224, 255))
        .insert("lightyellow2"@, RGBA(238, 238, 209, 255))
        .insert("lightyellow3"@, RGBA(205, 205, 180, 255))
        .insert("lightyellow4"@, RGBA(139, 139, 122, 255))
        .insert("yellow1"@, RGBA(255, 255, 0, 255))
        .insert("yellow2"@, RGBA(238, 238, 0, 255))
        .insert("yellow3"@, RGBA(205, 205, 0, 255))
        .insert("yellow4"@, RGBA(139, 139, 0, 255))
        .insert("gold1"@, RGBA(255, 215, 0, 255))
        .insert("gold2"@, RGBA(238, 201, 0, 255))
        .insert("gold3"@, RGBA(205, 173, 0, 255))
        .insert("gold4"@, RGBA(139, 117, 0, 255))
        .insert("goldenrod1"@, RGBA(255, 193, 37, 255))
        .insert("goldenrod2"@, RGBA(238, 180, 34, 255))
        .insert("goldenrod3"@, RGBA(205, 155, 29, 255))
        .insert("goldenrod4"@, RGBA(139, 105, 20, 255))
        .insert("darkgoldenrod1"@, RGBA(255, 185, 15, 255))
        .insert("darkgoldenrod2"@, RGBA(238, 173, 14, 255))
        .insert("darkgoldenrod3"@, RGBA(205, 149, 12, 255))
        .insert("darkgoldenrod4"@, RGBA(139, 101, 8, 255))
        .insert("rosybrown1"@, RGBA(255, 193, 193, 255))
        .insert("rosybrown2"@, RGBA(238, 180, 180, 255))
        .insert("rosybrown3"@, RGBA(205, 155, 155, 255))
        .insert("rosybrown4"@, RGBA(139, 105, 105, 255))
        .insert("indianred1"@, RGBA(255, 106, 106, 255))
        .insert("indianred2"@, RGBA(238, 99, 99, 255))
        .insert("indianred3"@, RGBA(205, 85, 85, 255))
        .insert("indianred4"@, RGBA(139, 58, 58, 255))
        .insert("sienna1"@, RGBA(255, 130, 71, 255))
        .insert("sienna2"@, RGBA(238, 121, 66, 255))
        .insert("sienna3"@, RGBA(205, 104, 57, 255))
        .insert("sienna4"@, RGBA(139, 71, 38, 255))
        .insert("burlywood1"@, RGBA(255, 211, 155, 255))
        .insert("burlywood2"@, RGBA(238, 197, 145, 255))
        .insert("burlywood3"@, RGBA(205, 170, 125, 255))
        .insert("burlywood4"@, RGBA(139, 115, 85, 255))
        .insert("wheat1"@, RGBA(255, 231, 186, 255))
        .insert("wheat2"@, RGBA(238, 216, 174, 255))
        .insert("wheat3"@, RGBA(205, 186, 150, 255))
        .insert("wheat4"@, RGBA(139, 126, 102, 255))
        .insert("tan1"@, RGBA(255, 165, 79, 255))
        .insert("tan2"@, RGBA(238, 154, 73, 255))
        .insert("tan3"@, RGBA(205, 133, 63, 255))
}

fn add_named_part_9(p: &mut Palette)
    requires
        old(p).wf(),
    ensures
        final(p).wf(),
        final(p).view() == named_part_9(old(p).view()),
{
    p.insert_str("khaki2", RGBA(238, 230, 133, 255));
    p.insert_str("khaki3", RGBA(205, 198, 115, 255));
    p.insert_str("khaki4", RGBA(139, 134, 78, 255));
    p.insert_str("lightgoldenrod1", RGBA(255, 236, 139, 255));
    p.insert_str("lightgoldenrod2", RGBA(238, 220, 130, 255));
    p.insert_str("lightgoldenrod3", RGBA(205, 190, 112, 255));
    p.insert_str("lightgoldenrod4", RGBA(139, 129, 76, 255));
    p.insert_str("lightyellow1", RGBA(255, 255, 224, 255));
    p.insert_str("lightyellow2", RGBA(238, 238, 209, 255));
    p.insert_str("lightyellow3", RGBA(205, 205, 180, 255));
    p.insert_str("lightyellow4", RGBA(139, 139, 122, 255));
    p.insert_str("yellow1", RGBA(255, 255, 0, 255));
    p.insert_str("yellow2", RGBA(238, 238, 0, 255));
    p.insert_str("yellow3", RGBA(205, 205, 0, 255));
    p.insert_str("yellow4", RGBA(139, 139, 0, 255));
    p.insert_str("gold1", RGBA(255, 215, 0, 255));
    p.insert_str("gold2", RGBA(238, 201, 0, 255));
    p.insert_str("gold3", RGBA(205, 173, 0, 255));
    p.insert_str("gold4", RGBA(139, 117, 0, 255));
    p.insert_str("goldenrod1", RGBA(255, 193, 37, 255));
    p.insert_str("goldenrod2", RGBA(238, 180, 34, 255));
    p.insert_str("goldenrod3", RGBA(205, 155, 29, 255));
    p.insert_str("goldenrod4", RGBA(139, 105, 20, 255));
    p.insert_str("darkgoldenrod1", RGBA(255, 185, 15, 255));
    p.insert_str("darkgoldenrod2", RGBA(238, 173, 14, 255));
    p.insert_str("darkgoldenrod3", RGBA(205, 149, 12, 255));
    p.insert_str("darkgoldenrod4", RGBA(139, 101, 8, 255));
    p.insert_str("rosybrown1", RGBA(255, 193, 193, 255));
    p.insert_str("rosybrown2", RGBA(238, 180, 180, 255));
    p.insert_str("rosybrown3", RGBA(205, 155, 155, 255));
    p.insert_str("rosybrown4", RGBA(139, 105, 105, 255));
    p.insert_str("indianred1", RGBA(255, 106, 106, 255));
    p.insert_str("indianred2", RGBA(238, 99, 99, 255));
    p.insert_str("indianred3", RGBA(205, 85, 85, 255));
    p.insert_str("indianred4", RGBA(139, 58, 58, 255));
    p.insert_str("sienna1", RGBA(255, 130, 71, 255));
    p.insert_str("sienna2", RGBA(238, 121, 66, 255));
    p.insert_str("sienna3", RGBA(205, 104, 57, 255));
    p.insert_str("sienna4", RGBA(139, 71, 38, 255));
    p.insert_str("burlywood1", RGBA(255, 211, 155, 255));
    p.insert_str("burlywood2", RGBA(238, 197, 145, 255));
    p.insert_str("burlywood3", RGBA(205, 170, 125, 255));
    p.insert_str("burlywood4", RGBA(139, 115, 85, 255));
    p.insert_str("wheat1", RGBA(255, 231, 186, 255));
    p.insert_str("wheat2", RGBA(238, 216, 174, 255));
    p.insert_str("wheat3", RGBA(205, 186, 150, 255));
    p.insert_str("wheat4", RGBA(139, 126, 102, 255));
    p.insert_str("tan1", RGBA(255, 165, 79, 255));
    p.insert_str("tan2", RGBA(238, 154, 73, 255));
    p.insert_str("tan3", RGBA(205, 133, 63, 255));
}

/// Named colors, part 10, inserted into `m` in order.
pub open spec fn named_part_10(m: Map<Seq<char>, RGBA>) -> Map<Seq<char>, RGBA> {
    m
        .insert("tan4"@, RGBA(139, 90, 43, 255))
        .insert("chocolate1"@, RGBA(255, 127, 36, 255))
        .insert("chocolate2"@, RGBA(238, 118, 33, 255))
        .insert("chocolate3"@, RGBA(205, 102, 29, 255))
        .insert("chocolate4"@, RGBA(139, 69, 19, 255))
        .insert("firebrick1"@, RGBA(255, 48, 48, 255))
        .insert("firebrick2"@, RGBA(238, 44, 44, 255))
        .insert("firebrick3"@, RGBA(205, 38, 38, 255))
        .insert("firebrick4"@, RGBA(139, 26, 26, 255))
        .insert("brown1"@, RGBA(255, 64, 64, 255))
        .insert("brown2"@, RGBA(238, 59, 59, 255))
        .insert("brown3"@, RGBA(205, 51, 51, 255))
        .insert("brown4"@, RGBA(139, 35, 35, 255))
        .insert("salmon1"@, RGBA(255, 140, 105, 255))
        .insert("salmon2"@, RGBA(238, 130, 98, 255))
        .insert("salmon3"@, RGBA(205, 112, 84, 255))
        .insert("salmon4"@, RGBA(139, 76, 57, 255))
        .insert("lightsalmon1"@, RGBA(255, 160, 122, 255))
        .insert("lightsalmon2"@, RGBA(238, 149, 114, 255))
        .insert("lightsalmon3"@, RGBA(205, 129, 98, 255))
        .insert("lightsalmon4"@, RGBA(139, 87, 66, 255))
        .insert("orange1"@, RGBA(255, 165, 0, 255))
        .insert("orange2"@, RGBA(238, 154, 0, 255))
        .insert("orange3"@, RGBA(205, 133, 0, 255))
        .insert("orange4"@, RGBA(139, 90, 0, 255))
        .insert("darkorange1"@, RGBA(255, 127, 0, 255))
        .insert("darkorange2"@, RGBA(238, 118, 0, 255))
        .insert("darkorange3"@, RGBA(205, 102, 0, 255))
        .insert("darkorange4"@, RGBA(139, 69, 0, 255))
        .insert("coral1"@, RGBA(255, 114, 86, 255))
        .insert("coral2"@, RGBA(238, 106, 80, 255))
        .insert("coral3"@, RGBA(205, 91, 69, 255))
        .insert("coral4"@, RGBA(139, 62, 47, 255))
        .insert("tomato1"@, RGBA(255, 99, 71, 255))
        .insert("tomato2"@, RGBA(238, 92, 66, 255))
        .insert("tomato3"@, RGBA(205, 79, 57, 255))
        .insert("tomato4"@, RGBA(139, 54, 38, 255))
        .insert("orangered1"@, RGBA(255, 69, 0, 255))
        .insert("orangered2"@, RGBA(238, 64, 0, 255))
        .insert("orangered3"@, RGBA(205, 55, 0, 255))
        .insert("orangered4"@, RGBA(139, 37, 0, 255))
        .insert("red1"@, RGBA(255, 0, 0, 255))
        .insert("red2"@, RGBA(238, 0, 0, 255))
        .insert("red3"@, RGBA(205, 0, 0, 255))
        .insert("red4"@, RGBA(139, 0, 0, 255))
        .insert("deeppink1"@, RGBA(255, 20, 147, 255))
        .insert("deeppink2"@, RGBA(238, 18, 137, 255))
        .insert("deeppink3"@, RGBA(205, 16, 118, 255))
        .insert("deeppink4"@, RGBA(139, 10, 80, 255))
        .insert("hotpink1"@, RGBA(255, 110, 180, 255))
}

fn add_named_part_10(p: &mut Palette)
    requires
        old(p).wf(),
    ensures
        final(p).wf(),
        final(p).view() == named_part_10(old(p).view()),
{
    p.insert_str("tan4", RGBA(139, 90, 43, 255));
    p.insert_str("chocolate1", RGBA(255, 127, 36, 255));
    p.insert_str("chocolate2", RGBA(238, 118, 33, 255));
    p.insert_str("chocolate3", RGBA(205, 102, 29, 255));
    p.insert_str("chocolate4", RGBA(139, 69, 19, 255));
    p.insert_str("firebrick1", RGBA(255, 48, 48, 255));
    p.insert_str("firebrick2", RGBA(238, 44, 44, 255));
    p.insert_str("firebrick3", RGBA(205, 38, 38, 255));
    p.insert_str("firebrick4", RGBA(139, 26, 26, 255));
    p.insert_str("brown1", RGBA(255, 64, 64, 255));
    p.insert_str("brown2", RGBA(238, 59, 59, 255));
    p.insert_str("brown3", RGBA(205, 51, 51, 255));
    p.insert_str("brown4", RGBA(139, 35, 35, 255));
    p.insert_str("salmon1", RGBA(255, 140, 105, 255));
    p.insert_str("salmon2", RGBA(238, 130, 98, 255));
    p.insert_str("salmon3", RGBA(205, 112, 84, 255));
    p.insert_str("salmon4", RGBA(139, 76, 57, 255));
    p.insert_str("lightsalmon1", RGBA(255, 160, 122, 255));
    p.insert_str("lightsalmon2", RGBA(238, 149, 114, 255));
    p.insert_str("lightsalmon3", RGBA(205, 129, 98, 255));
    p.insert_str("lightsalmon4", RGBA(139, 87, 66, 255));
    p.insert_str("orange1", RGBA(255, 165, 0, 255));
    p.insert_str("orange2", RGBA(238, 154, 0, 255));
    p.insert_str("orange3", RGBA(205, 133, 0, 255));
    p.insert_str("orange4", RGBA(139, 90, 0, 255));
    p.insert_str("darkorange1", RGBA(255, 127, 0, 255));
    p.insert_str("darkorange2", RGBA(238, 118, 0, 255));
    p.insert_str("darkorange3", RGBA(205, 102, 0, 255));
    p.insert_str("darkorange4", RGBA(139, 69, 0, 255));
    p.insert_str("coral1", RGBA(255, 114, 86, 255));
    p.insert_str("coral2", RGBA(238, 106, 80, 255));
    p.insert_str("coral3", RGBA(205, 91, 69, 255));
    p.insert_str("coral4", RGBA(139, 62, 47, 255));
    p.insert_str("tomato1", RGBA(255, 99, 71, 255));
    p.insert_str("tomato2", RGBA(238, 92, 66, 255));
    p.insert_str("tomato3", RGBA(205, 79, 57, 255));
    p.insert_str("tomato4", RGBA(139, 54, 38, 255));
    p.insert_str("orangered1", RGBA(255, 69, 0, 255));
    p.insert_str("orangered2", RGBA(238, 64, 0, 255));
    p.insert_str("orangered3", RGBA(205, 55, 0, 255));
    p.insert_str("orangered4", RGBA(139, 37, 0, 255));
    p.insert_str("red1", RGBA(255, 0, 0, 255));
    p.insert_str("red2", RGBA(238, 0, 0, 255));
    p.insert_str("red3", RGBA(205, 0, 0, 255));
    p.insert_str("red4", RGBA(139, 0, 0, 255));
    p.insert_str("deeppink1", RGBA(255, 20, 147, 255));
    p.insert_str("deeppink2", RGBA(238, 18, 137, 255));
    p.insert_str("deeppink3", RGBA(205, 16, 118, 255));
    p.insert_str("deeppink4", RGBA(139, 10, 80, 255));
    p.insert_str("hotpink1", RGBA(255, 110, 180, 255));
}

/// Named colors, part 11, inserted into `m` in order.
pub open spec fn named_part_11(m: Map<Seq<char>, RGBA>) -> Map<Seq<char>, RGBA> {
    m
        .insert("hotpink2"@, RGBA(238, 106, 167, 255))
        .insert("hotpink3"@, RGBA(205, 96, 144, 255))
        .insert("hotpink4"@, RGBA(139, 58, 98, 255))
        .insert("pink1"@, RGBA(255, 181, 197, 255))
        .insert("pink2"@, RGBA(238, 169, 184, 255))
        .insert("pink3"@, RGBA(205, 145, 158, 255))
        .insert("pink4"@, RGBA(139, 99, 108, 255))
        .insert("lightpink1"@, RGBA(255, 174, 185, 255))
        .insert("lightpink2"@, RGBA(238, 162, 173, 255))
        .insert("lightpink3"@, RGBA(205, 140, 149, 255))
        .insert("lightpink4"@, RGBA(139, 95, 101, 255))
        .insert("palevioletred1"@, RGBA(255, 130, 171, 255))
        .insert("palevioletred2"@, RGBA(238, 121, 159, 255))
        .insert("palevioletred3"@, RGBA(205, 104, 137, 255))
        .insert("palevioletred4"@, RGBA(139, 71, 93, 255))
        .insert("maroon1"@, RGBA(255, 52, 179, 255))
        .insert("maroon2"@, RGBA(238, 48, 167, 255))
        .insert("maroon3"@, RGBA(205, 41, 144, 255))
        .insert("maroon4"@, RGBA(139, 28, 98, 255))
        .insert("violetred1"@, RGBA(255, 62, 150, 255))
        .insert("violetred2"@, RGBA(238, 58, 140, 255))
        .insert("violetred3"@, RGBA(205, 50, 120, 255))
        .insert("violetred4"@, RGBA(139, 34, 82, 255))
        .insert("magenta1"@, RGBA(255, 0, 255, 255))
        .insert("magenta2"@, RGBA(238, 0, 238, 255))
        .insert("magenta3"@, RGBA(205, 0, 205, 255))
        .insert("magenta4"@, RGBA(139, 0, 139, 255))
        .insert("orchid1"@, RGBA(255, 131, 250, 255))
        .insert("orchid2"@, RGBA(238, 122, 233, 255))
        .insert("orchid3"@, RGBA(205, 105, 201, 255))
        .insert("orchid4"@, RGBA(139, 71, 137, 255))
        .insert("plum1"@, RGBA(255, 187, 255, 255))
        .insert("plum2"@, RGBA(238, 174, 238, 255))
        .insert("plum3"@, RGBA(205, 150, 205, 255))
        .insert("plum4"@, RGBA(139, 102, 139, 255))
        .insert("mediumorchid1"@, RGBA(224, 102, 255, 255))
        .insert("mediumorchid2"@, RGBA(209, 95, 238, 255))
        .insert("mediumorchid3"@, RGBA(180, 82, 205, 255))
        .insert("mediumorchid4"@, RGBA(122, 55, 139, 255))
        .insert("darkorchid1"@, RGBA(191, 62, 255, 255))
        .insert("darkorchid2"@, RGBA(178, 58, 238, 255))
        .insert("darkorchid3"@, RGBA(154, 50, 205, 255))
        .insert("darkorchid4"@, RGBA(104, 34, 139, 255))
        .insert("purple1"@, RGBA(155, 48, 255, 255))
        .insert("purple2"@, RGBA(145, 44, 238, 255))
        .insert("purple3"@, RGBA(125, 38, 205, 255))
        .insert("purple4"@, RGBA(85, 26, 139, 255))
        .insert("mediumpurple1"@, RGBA(171, 130, 255, 255))
        .insert("mediumpurple2"@, RGBA(159, 121, 238, 255))
        .insert("mediumpurple3"@, RGBA(137, 104, 205, 255))
}

fn add_named_part_11(p: &mut Palette)
    requires
        old(p).wf(),
    ensures
        final(p).wf(),
        final(p).view() == named_part_11(old(p).view()),
{
    p.insert_str("hotpink2", RGBA(238, 106, 167, 255));
    p.insert_str("hotpink3", RGBA(205, 96, 144, 255));
    p.insert_str("hotpink4", RGBA(139, 58, 98, 255));
    p.insert_str("pink1", RGBA(255, 181, 197, 255));
    p.insert_str("pink2", RGBA(238, 169, 184, 255));
    p.insert_str("pink3", RGBA(205, 145, 158, 255));
    p.insert_str("pink4", RGBA(139, 99, 108, 255));
    p.insert_str("lightpink1", RGBA(255, 174, 185, 255));
    p.insert_str("lightpink2", RGBA(238, 162, 173, 255));
    p.insert_str("lightpink3", RGBA(205, 140, 149, 255));
    p.insert_str("lightpink4", RGBA(139, 95, 101, 255));
    p.insert_str("palevioletred1", RGBA(255, 130, 171, 255));
    p.insert_str("palevioletred2", RGBA(238, 121, 159, 255));
    p.insert_str("palevioletred3", RGBA(205, 104, 137, 255));
    p.insert_str("palevioletred4", RGBA(139, 71, 93, 255));
    p.insert_str("maroon1", RGBA(255, 52, 179, 255));
    p.insert_str("maroon2", RGBA(238, 48, 167, 255));
    p.insert_str("maroon3", RGBA(205, 41, 144, 255));
    p.insert_str("maroon4", RGBA(139, 28, 98, 255));
    p.insert_str("violetred1", RGBA(255, 62, 150, 255));
    p.insert_str("violetred2", RGBA(238, 58, 140, 255));
    p.insert_str("violetred3", RGBA(205, 50, 120, 255));
    p.insert_str("violetred4", RGBA(139, 34, 82, 255));
    p.insert_str("magenta1", RGBA(255, 0, 255, 255));
    p.insert_str("magenta2", RGBA(238, 0, 238, 255));
    p.insert_str("magenta3", RGBA(205, 0, 205, 255));
    p.insert_str("magenta4", RGBA(139, 0, 139, 255));
    p.insert_str("orchid1", RGBA(255, 131, 250, 255));
    p.insert_str("orchid2", RGBA(238, 122, 233, 255));
    p.insert_str("orchid3", RGBA(205, 105, 201, 255));
    p.insert_str("orchid4", RGBA(139, 71, 137, 255));
    p.insert_str("plum1", RGBA(255, 187, 255, 255));
    p.insert_str("plum2", RGBA(238, 174, 238, 255));
    p.insert_str("plum3", RGBA(205, 150, 205, 255));
    p.insert_str("plum4", RGBA(139, 102, 139, 255));
    p.insert_str("mediumorchid1", RGBA(224, 102, 255, 255));
    p.insert_str("mediumorchid2", RGBA(209, 95, 238, 255));
    p.insert_str("mediumorchid3", RGBA(180, 82, 205, 255));
    p.insert_str("mediumorchid4", RGBA(122, 55, 139, 255));
    p.insert_str("darkorchid1", RGBA(191, 62, 255, 255));
    p.insert_str("darkorchid2", RGBA(178, 58, 238, 255));
    p.insert_str("darkorchid3", RGBA(154, 50, 205, 255));
    p.insert_str("darkorchid4", RGBA(104, 34, 139, 255));
    p.insert_str("purple1", RGBA(155, 48, 255, 255));
    p.insert_str("purple2", RGBA(145, 44, 238, 255));
    p.insert_str("purple3", RGBA(125, 38, 205, 255));
    p.insert_str("purple4", RGBA(85, 26, 139, 255));
    p.insert_str("mediumpurple1", RGBA(171, 130, 255, 255));
    p.insert_str("mediumpurple2", RGBA(159, 121, 238, 255));
    p.insert_str("mediumpurple3", RGBA(137, 104, 205, 255));
}

/// Named colors, part 12, inserted into `m` in order.
pub open spec fn named_part_12(m: Map<Seq<char>, RGBA>) -> Map<Seq<char>, RGBA> {
    m
        .insert("mediumpurple4"@, RGBA(93, 71, 139, 255))
        .insert("thistle1"@, RGBA(255, 225, 255, 255))
        .insert("thistle2"@, RGBA(238, 210, 238, 255))
        .insert("thistle3"@, RGBA(205, 181, 205, 255))
        .insert("thistle4"@, RGBA(139, 123, 139, 255))
        .insert("gray0"@, RGBA(0, 0, 0, 255))
        .insert("grey0"@, RGBA(0, 0, 0, 255))
        .insert("gray1"@, RGBA(3, 3, 3, 255))
        .insert("grey1"@, RGBA(3, 3, 3, 255))
        .insert("gray2"@, RGBA(5, 5, 5, 255))
        .insert("grey2"@, RGBA(5, 5, 5, 255))
        .insert("gray3"@, RGBA(8, 8, 8, 255))
        .insert("grey3"@, RGBA(8, 8, 8, 255))
        .insert("gray4"@, RGBA(10, 10, 10, 255))
        .insert("grey4"@, RGBA(10, 10, 10, 255))
        .insert("gray5"@, RGBA(13, 13, 13, 255))
        .insert("grey5"@, RGBA(13, 13, 13, 255))
        .insert("gray6"@, RGBA(15, 15, 15, 255))
        .insert("grey6"@, RGBA(15, 15, 15, 255))
        .insert("gray7"@, RGBA(18, 18, 18, 255))
        .insert("grey7"@, RGBA(18, 18, 18, 255))
        .insert("gray8"@, RGBA(20, 20, 20, 255))
        .insert("grey8"@, RGBA(20, 20, 20, 255))
        .insert("gray9"@, RGBA(23, 23, 23, 255))
        .insert("grey9"@, RGBA(23, 23, 23, 255))
        .insert("gray10"@, RGBA(26, 26, 26, 255))
        .insert("grey10"@, RGBA(26, 26, 26, 255))
        .insert("gray11"@, RGBA(28, 28, 28, 255))
        .insert("grey11"@, RGBA(28, 28, 28, 255))
        .insert("gray12"@, RGBA(31, 31, 31, 255))
        .insert("grey12"@, RGBA(31, 31, 31, 255))
        .insert("gray13"@, RGBA(33, 33, 33, 255))
        .insert("grey13"@, RGBA(33, 33, 33, 255))
        .insert("gray14"@, RGBA(36, 36, 36, 255))
        .insert("grey14"@, RGBA(36, 36, 36, 255))
        .insert("gray15"@, RGBA(38, 38, 38, 255))
        .insert("grey15"@, RGBA(38, 38, 38, 255))
        .insert("gray16"@, RGBA(41, 41, 41, 255))
        .insert("grey16"@, RGBA(41, 41, 41, 255))
        .insert("gray17"@, RGBA(43, 43, 43, 255))
        .insert("grey17"@, RGBA(43, 43, 43, 255))
        .insert("gray18"@, RGBA(46, 46, 46, 255))
        .insert("grey18"@, RGBA(46, 46, 46, 255))
        .insert("gray19"@, RGBA(48, 48, 48, 255))
        .insert("grey19"@, RGBA(48, 48, 48, 255))
        .insert("gray20"@, RGBA(51, 51, 51, 255))
        .insert("grey20"@, RGBA(51, 51, 51, 255))
        .insert("gray21"@, RGBA(54, 54, 54, 255))
        .insert("grey21"@, RGBA(54, 54, 54, 255))
        .insert("gray22"@, RGBA(56, 56, 56, 255))
}

fn add_named_part_12(p: &mut Palette)
    requires
        old(p).wf(),
    ensures
        final(p).wf(),
        final(p).view() == named_part_12(old(p).view()),
{
    p.insert_str("mediumpurple4", RGBA(93, 71, 139, 255));
    p.insert_str("thistle1", RGBA(255, 225, 255, 255));
    p.insert_str("thistle2", RGBA(238, 210, 238, 255));
    p.insert_str("thistle3", RGBA(205, 181, 205, 255));
    p.insert_str("thistle4", RGBA(139, 123, 139, 255));
    p.insert_str("gray0", RGBA(0, 0, 0, 255));
    p.insert_str("grey0", RGBA(0, 0, 0, 255));
    p.insert_str("gray1", RGBA(3, 3, 3, 255));
    p.insert_str("grey1", RGBA(3, 3, 3, 255));
    p.insert_str("gray2", RGBA(5, 5, 5, 255));
    p.insert_str("grey2", RGBA(5, 5, 5, 255));
    p.insert_str("gray3", RGBA(8, 8, 8, 255));
    p.insert_str("grey3", RGBA(8, 8, 8, 255));
    p.insert_str("gray4", RGBA(10, 10, 10, 255));
    p.insert_str("grey4", RGBA(10, 10, 10, 255));
    p.insert_str("gray5", RGBA(13, 13, 13, 255));
    p.insert_str("grey5", RGBA(13, 13, 13, 255));
    p.insert_str("gray6", RGBA(15, 15, 15, 255));
    p.insert_str("grey6", RGBA(15, 15, 15, 255));
    p.insert_str("gray7", RGBA(18, 18, 18, 255));
    p.insert_str("grey7", RGBA(18, 18, 18, 255));
    p.insert_str("gray8", RGBA(20, 20, 20, 255));
    p.insert_str("grey8", RGBA(20, 20, 20, 255));
    p.insert_str("gray9", RGBA(23, 23, 23, 255));
    p.insert_str("grey9", RGBA(23, 23, 23, 255));
    p.insert_str("gray10", RGBA(26, 26, 26, 255));
    p.insert_str("grey10", RGBA(26, 26, 26, 255));
    p.insert_str("gray11", RGBA(28, 28, 28, 255));
    p.insert_str("grey11", RGBA(28, 28, 28, 255));
    p.insert_str("gray12", RGBA(31, 31, 31, 255));
    p.insert_str("grey12", RGBA(31, 31, 31, 255));
    p.insert_str("gray13", RGBA(33, 33, 33, 255));
    p.insert_str("grey13", RGBA(33, 33, 33, 255));
    p.insert_str("gray14", RGBA(36, 36, 36, 255));
    p.insert_str("grey14", RGBA(36, 36, 36, 255));
    p.insert_str("gray15", RGBA(38, 38, 38, 255));
    p.insert_str("grey15", RGBA(38, 38, 38, 255));
    p.insert_str("gray16", RGBA(41, 41, 41, 255));
    p.insert_str("grey16", RGBA(41, 41, 41, 255));
    p.insert_str("gray17", RGBA(43, 43, 43, 255));
    p.insert_str("grey17", RGBA(43, 43, 43, 255));
    p.insert_str("gray18", RGBA(46, 46, 46, 255));
    p.insert_str("grey18", RGBA(46, 46, 46, 255));
    p.insert_str("gray19", RGBA(48, 48, 48, 255));
    p.insert_str("grey19", RGBA(48, 48, 48, 255));
    p.insert_str("gray20", RGBA(51, 51, 51, 255));
    p.insert_str("grey20", RGBA(51, 51, 51, 255));
    p.insert_str("gray21", RGBA(54, 54, 54, 255));
    p.insert_str("grey21", RGBA(54, 54, 54, 255));
    p.insert_str("gray22", RGBA(56, 56, 56, 255));
}

/// Named colors, part 13, inserted into `m` in order.
pub open spec fn named_part_13(m: Map<Seq<char>, RGBA>) -> Map<Seq<char>, RGBA> {
    m
        .insert("grey22"@, RGBA(56, 56, 56, 255))
        .insert("gray23"@, RGBA(59, 59, 59, 255))
        .insert("grey23"@, RGBA(59, 59, 59, 255))
        .insert("gray24"@, RGBA(61, 61, 61, 255))
        .insert("grey24"@, RGBA(61, 61, 61, 255))
        .insert("gray25"@, RGBA(64, 64, 64, 255))
        .insert("grey25"@, RGBA(64, 64, 64, 255))
        .insert("gray26"@, RGBA(66, 66, 66, 255))
        .insert("grey26"@, RGBA(66, 66, 66, 255))
        .insert("gray27"@, RGBA(69, 69, 69, 255))
        .insert("grey27"@, RGBA(69, 69, 69, 255))
        .insert("gray28"@, RGBA(71, 71, 71, 255))
        .insert("grey28"@, RGBA(71, 71, 71, 255))
        .insert("gray29"@, RGBA(74, 74, 74, 255))
        .insert("grey29"@, RGBA(74, 74, 74, 255))
        .insert("gray30"@, RGBA(77, 77, 77, 255))
        .insert("grey30"@, RGBA(77, 77, 77, 255))
        .insert("gray31"@, RGBA(79, 79, 79, 255))
        .insert("grey31"@, RGBA(79, 79, 79, 255))
        .insert("gray32"@, RGBA(82, 82, 82, 255))
        .insert("grey32"@, RGBA(82, 82, 82, 255))
        .insert("gray33"@, RGBA(84, 84, 84, 255))
        .insert("grey33"@, RGBA(84, 84, 84, 255))
        .insert("gray34"@, RGBA(87, 87, 87, 255))
        .insert("grey34"@, RGBA(87, 87, 87, 255))
        .insert("gray35"@, RGBA(89, 89, 89, 255))
        .insert("grey35"@, RGBA(89, 89, 89, 255))
        .insert("gray36"@, RGBA(92, 92, 92, 255))
        .insert("grey36"@, RGBA(92, 92, 92, 255))
        .insert("gray37"@, RGBA(94, 94, 94, 255))
        .insert("grey37"@, RGBA(94, 94, 94, 255))
        .insert("gray38"@, RGBA(97, 97, 97, 255))
        .insert("grey38"@, RGBA(97, 97, 97, 255))
        .insert("gray39"@, RGBA(99, 99, 99, 255))
        .insert("grey39"@, RGBA(99, 99, 99, 255))
        .insert("gray40"@, RGBA(102, 102, 102, 255))
        .insert("grey40"@, RGBA(102, 102, 102, 255))
        .insert("gray41"@, RGBA(105, 105, 105, 255))
        .insert("grey41"@, RGBA(105, 105, 105, 255))
        .insert("gray42"@, RGBA(107, 107, 107, 255))
        .insert("grey42"@, RGBA(107, 107, 107, 255))
        .insert("gray43"@, RGBA(110, 110, 110, 255))
        .insert("grey43"@, RGBA(110, 110, 110, 255))
        .insert("gray44"@, RGBA(112, 112, 112, 255))
        .insert("grey44"@, RGBA(112, 112, 112, 255))
        .insert("gray45"@, RGBA(115, 115, 115, 255))
        .insert("grey45"@, RGBA(115, 115, 115, 255))
        .insert("gray46"@, RGBA(117, 117, 117, 255))
        .insert("grey46"@, RGBA(117, 117, 117, 255))
        .insert("gray47"@, RGBA(120, 120, 120, 255))
}

fn add_named_part_13(p: &mut Palette)
    requires
        old(p).wf(),
    ensures
        final(p).wf(),
        final(p).view() == named_part_13(old(p).view()),
{
    p.insert_str("grey22", RGBA(56, 56, 56, 255));
    p.insert_str("gray23", RGBA(59, 59, 59, 255));
    p.insert_str("grey23", RGBA(59, 59, 59, 255));
    p.insert_str("gray24", RGBA(61, 61, 61, 255));
    p.insert_str("grey24", RGBA(61, 61, 61, 255));
    p.insert_str("gray25", RGBA(64, 64, 64, 255));
    p.insert_str("grey25", RGBA(64, 64, 64, 255));
    p.insert_str("gray26", RGBA(66, 66, 66, 255));
    p.insert_str("grey26", RGBA(66, 66, 66, 255));
    p.insert_str("gray27", RGBA(69, 69, 69, 255));
    p.insert_str("grey27", RGBA(69, 69, 69, 255));
    p.insert_str("gray28", RGBA(71, 71, 71, 255));
    p.insert_str("grey28", RGBA(71, 71, 71, 255));
    p.insert_str("gray29", RGBA(74, 74, 74, 255));
    p.insert_str("grey29", RGBA(74, 74, 74, 255));
    p.insert_str("gray30", RGBA(77, 77, 77, 255));
    p.insert_str("grey30", RGBA(77, 77, 77, 255));
    p.insert_str("gray31", RGBA(79, 79, 79, 255));
    p.insert_str("grey31", RGBA(79, 79, 79, 255));
    p.insert_str("gray32", RGBA(82, 82, 82, 255));
    p.insert_str("grey32", RGBA(82, 82, 82, 255));
    p.insert_str("gray33", RGBA(84, 84, 84, 255));
    p.insert_str("grey33", RGBA(84, 84, 84, 255));
    p.insert_str("gray34", RGBA(87, 87, 87, 255));
    p.insert_str("grey34", RGBA(87, 87, 87, 255));
    p.insert_str("gray35", RGBA(89, 89, 89, 255));
    p.insert_str("grey35", RGBA(89, 89, 89, 255));
    p.insert_str("gray36", RGBA(92, 92, 92, 255));
    p.insert_str("grey36", RGBA(92, 92, 92, 255));
    p.insert_str("gray37", RGBA(94, 94, 94, 255));
    p.insert_str("grey37", RGBA(94, 94, 94, 255));
    p.insert_str("gray38", RGBA(97, 97, 97, 255));
    p.insert_str("grey38", RGBA(97, 97, 97, 255));
    p.insert_str("gray39", RGBA(99, 99, 99, 255));
    p.insert_str("grey39", RGBA(99, 99, 99, 255));
    p.insert_str("gray40", RGBA(102, 102, 102, 255));
    p.insert_str("grey40", RGBA(102, 102, 102, 255));
    p.insert_str("gray41", RGBA(105, 105, 105, 255));
    p.insert_str("grey41", RGBA(105, 105, 105, 255));
    p.insert_str("gray42", RGBA(107, 107, 107, 255));
    p.insert_str("grey42", RGBA(107, 107, 107, 255));
    p.insert_str("gray43", RGBA(110, 110, 110, 255));
    p.insert_str("grey43", RGBA(110, 110, 110, 255));
    p.insert_str("gray44", RGBA(112, 112, 112, 255));
    p.insert_str("grey44", RGBA(112, 112, 112, 255));
    p.insert_str("gray45", RGBA(115, 115, 115, 255));
    p.insert_str("grey45", RGBA(115, 115, 115, 255));
    p.insert_str("gray46", RGBA(117, 117, 117, 255));
    p.insert_str("grey46", RGBA(117, 117, 117, 255));
    p.insert_str("gray47", RGBA(120, 120, 120, 255));
}

/// Named colors, part 14, inserted into `m` in order.
pub open spec fn named_part_14(m: Map<Seq<char>, RGBA>) -> Map<Seq<char>, RGBA> {
    m
        .insert("grey47"@, RGBA(120, 120, 120, 255))
        .insert("gray48"@, RGBA(122, 122, 122, 255))
        .insert("grey48"@, RGBA(122, 122, 122, 255))
        .insert("gray49"@, RGBA(125, 125, 125, 255))
        .insert("grey49"@, RGBA(125, 125, 125, 255))
        .insert("gray50"@, RGBA(127, 127, 127, 255))
        .insert("grey50"@, RGBA(127, 127, 127, 255))
        .insert("gray51"@, RGBA(130, 130, 130, 255))
        .insert("grey51"@, RGBA(130, 130, 130, 255))
        .insert("gray52"@, RGBA(133, 133, 133, 255))
        .insert("grey52"@, RGBA(133, 133, 133, 255))
        .insert("gray53"@, RGBA(135, 135, 135, 255))
        .insert("grey53"@, RGBA(135, 135, 135, 255))
        .insert("gray54"@, RGBA(138, 138, 138, 255))
        .insert("grey54"@, RGBA(138, 138, 138, 255))
        .insert("gray55"@, RGBA(140, 140, 140, 255))
        .insert("grey55"@, RGBA(140, 140, 140, 255))
        .insert("gray56"@, RGBA(143, 143, 143, 255))
        .insert("grey56"@, RGBA(143, 143, 143, 255))
        .insert("gray57"@, RGBA(145, 145, 145, 255))
        .insert("grey57"@, RGBA(145, 145, 145, 255))
        .insert("gray58"@, RGBA(148, 148, 148, 255))
        .insert("grey58"@, RGBA(148, 148, 148, 255))
        .insert("gray59"@, RGBA(150, 150, 150, 255))
        .insert("grey59"@, RGBA(150, 150, 150, 255))
        .insert("gray60"@, RGBA(153, 153, 153, 255))
        .insert("grey60"@, RGBA(153, 153, 153, 255))
        .insert("gray61"@, RGBA(156, 156, 156, 255))
        .insert("grey61"@, RGBA(156, 156, 156, 255))
        .insert("gray62"@, RGBA(158, 158, 158, 255))
        .insert("grey62"@, RGBA(158, 158, 158, 255))
        .insert("gray63"@, RGBA(161, 161, 161, 255))
        .insert("grey63"@, RGBA(161, 161, 161, 255))
        .insert("gray64"@, RGBA(163, 163, 163, 255))
        .insert("grey64"@, RGBA(163, 163, 163, 255))
        .insert("gray65"@, RGBA(166, 166, 166, 255))
        .insert("grey65"@, RGBA(166, 166, 166, 255))
        .insert("gray66"@, RGBA(168, 168, 168, 255))
        .insert("grey66"@, RGBA(168, 168, 168, 255))
        .insert("gray67"@, RGBA(171, 171, 171, 255))
        .insert("grey67"@, RGBA(171, 171, 171, 255))
        .insert("gray68"@, RGBA(173, 173, 173, 255))
        .insert("grey68"@, RGBA(173, 173, 173, 255))
        .insert("gray69"@, RGBA(176, 176, 176, 255))
        .insert("grey69"@, RGBA(176, 176, 176, 255))
        .insert("gray70"@, RGBA(179, 179, 179, 255))
        .insert("grey70"@, RGBA(179, 179, 179, 255))
        .insert("gray71"@, RGBA(181, 181, 181, 255))
        .insert("grey71"@, RGBA(181, 181, 181, 255))
        .insert("gray72"@, RGBA(184, 184, 184, 255))
}

fn add_named_part_14(p: &mut Palette)
    requires
        old(p).wf(),
    ensures
        final(p).wf(),
        final(p).view() == named_part_14(old(p).view()),
{
    p.insert_str("grey47", RGBA(120, 120, 120, 255));
    p.insert_str("gray48", RGBA(122, 122, 122, 255));
    p.insert_str("grey48", RGBA(122, 122, 122, 255));
    p.insert_str("gray49", RGBA(125, 125, 125, 255));
    p.insert_str("grey49", RGBA(125, 125, 125, 255));
    p.insert_str("gray50", RGBA(127, 127, 127, 255));
    p.insert_str("grey50", RGBA(127, 127, 127, 255));
    p.insert_str("gray51", RGBA(130, 130, 130, 255));
    p.insert_str("grey51", RGBA(130, 130, 130, 255));
    p.insert_str("gray52", RGBA(133, 133, 133, 255));
    p.insert_str("grey52", RGBA(133, 133, 133, 255));
    p.insert_str("gray53", RGBA(135, 135, 135, 255));
    p.insert_str("grey53", RGBA(135, 135, 135, 255));
    p.insert_str("gray54", RGBA(138, 138, 138, 255));
    p.insert_str("grey54", RGBA(138, 138, 138, 255));
    p.insert_str("gray55", RGBA(140, 140, 140, 255));
    p.insert_str("grey55", RGBA(140, 140, 140, 255));
    p.insert_str("gray56", RGBA(143, 143, 143, 255));
    p.insert_str("grey56", RGBA(143, 143, 143, 255));
    p.insert_str("gray57", RGBA(145, 145, 145, 255));
    p.insert_str("grey57", RGBA(145, 145, 145, 255));
    p.insert_str("gray58", RGBA(148, 148, 148, 255));
    p.insert_str("grey58", RGBA(148, 148, 148, 255));
    p.insert_str("gray59", RGBA(150, 150, 150, 255));
    p.insert_str("grey59", RGBA(150, 150, 150, 255));
    p.insert_str("gray60", RGBA(153, 153, 153, 255));
    p.insert_str("grey60", RGBA(153, 153, 153, 255));
    p.insert_str("gray61", RGBA(156, 156, 156, 255));
    p.insert_str("grey61", RGBA(156, 156, 156, 255));
    p.insert_str("gray62", RGBA(158, 158, 158, 255));
    p.insert_str("grey62", RGBA(158, 158, 158, 255));
    p.insert_str("gray63", RGBA(161, 161, 161, 255));
    p.insert_str("grey63", RGBA(161, 161, 161, 255));
    p.insert_str("gray64", RGBA(163, 163, 163, 255));
    p.insert_str("grey64", RGBA(163, 163, 163, 255));
    p.insert_str("gray65", RGBA(166, 166, 166, 255));
    p.insert_str("grey65", RGBA(166, 166, 166, 255));
    p.insert_str("gray66", RGBA(168, 168, 168, 255));
    p.insert_str("grey66", RGBA(168, 168, 168, 255));
    p.insert_str("gray67", RGBA(171, 171, 171, 255));
    p.insert_str("grey67", RGBA(171, 171, 171, 255));
    p.insert_str("gray68", RGBA(173, 173, 173, 255));
    p.insert_str("grey68", RGBA(173, 173, 173, 255));
    p.insert_str("gray69", RGBA(176, 176, 176, 255));
    p.insert_str("grey69", RGBA(176, 176, 176, 255));
    p.insert_str("gray70", RGBA(179, 179, 179, 255));
    p.insert_str("grey70", RGBA(179, 179, 179, 255));
    p.insert_str("gray71", RGBA(181, 181, 181, 255));
    p.insert_str("grey71", RGBA(181, 181, 181, 255));
    p.insert_str("gray72", RGBA(184, 184, 184, 255));
}

/// Named colors, part 15, inserted into `m` in order.
pub open spec fn named_part_15(m: Map<Seq<char>, RGBA>) -> Map<Seq<char>, RGBA> {
    m
        .insert("grey72"@, RGBA(184, 184, 184, 255))
        .insert("gray73"@, RGBA(186, 186, 186, 255))
        .insert("grey73"@, RGBA(186, 186, 186, 255))
        .insert("gray74"@, RGBA(189, 189, 189, 255))
        .insert("grey74"@, RGBA(189, 189, 189, 255))
        .insert("gray75"@, RGBA(191, 191, 191, 255))
        .insert("grey75"@, RGBA(191, 191, 191, 255))
        .insert("gray76"@, RGBA(194, 194, 194, 255))
        .insert("grey76"@, RGBA(194, 194, 194, 255))
        .insert("gray77"@, RGBA(196, 196, 196, 255))
        .insert("grey77"@, RGBA(196, 196, 196, 255))
        .insert("gray78"@, RGBA(199, 199, 199, 255))
        .insert("grey78"@, RGBA(199, 199, 199, 255))
        .insert("gray79"@, RGBA(201, 201, 201, 255))
        .insert("grey79"@, RGBA(201, 201, 201, 255))
        .insert("gray80"@, RGBA(204, 204, 204, 255))
        .insert("grey80"@, RGBA(204, 204, 204, 255))
        .insert("gray81"@, RGBA(207, 207, 207, 255))
        .insert("grey81"@, RGBA(207, 207, 207, 255))
        .insert("gray82"@, RGBA(209, 209, 209, 255))
        .insert("grey82"@, RGBA(209, 209, 209, 255))
        .insert("gray83"@, RGBA(212, 212, 212, 255))
        .insert("grey83"@, RGBA(212, 212, 212, 255))
        .insert("gray84"@, RGBA(214, 214, 214, 255))
        .insert("grey84"@, RGBA(214, 214, 214, 255))
        .insert("gray85"@, RGBA(217, 217, 217, 255))
        .insert("grey85"@, RGBA(217, 217, 217, 255))
        .insert("gray86"@, RGBA(219, 219, 219, 255))
        .insert("grey86"@, RGBA(219, 219, 219, 255))
        .insert("gray87"@, RGBA(222, 222, 222, 255))
        .insert("grey87"@, RGBA(222, 222, 222, 255))
        .insert("gray88"@, RGBA(224, 224, 224, 255))
        .insert("grey88"@, RGBA(224, 224, 224, 255))
        .insert("gray89"@, RGBA(227, 227, 227, 255))
        .insert("grey89"@, RGBA(227, 227, 227, 255))
        .insert("gray90"@, RGBA(229, 229, 229, 255))
        .insert("grey90"@, RGBA(229, 229, 229, 255))
        .insert("gray91"@, RGBA(232, 232, 232, 255))
        .insert("grey91"@, RGBA(232, 232, 232, 255))
        .insert("gray92"@, RGBA(235, 235, 235, 255))
        .insert("grey92"@, RGBA(235, 235, 235, 255))
        .insert("gray93"@, RGBA(237, 237, 237, 255))
        .insert("grey93"@, RGBA(237, 237, 237, 255))
        .insert("gray94"@, RGBA(240, 240, 240, 255))
        .insert("grey94"@, RGBA(240, 240, 240, 255))
        .insert("gray95"@, RGBA(242, 242, 242, 255))
        .insert("grey95"@, RGBA(242, 242, 242, 255))
        .insert("gray96"@, RGBA(245, 245, 245, 255))
        .insert("grey96"@, RGBA(245, 245, 245, 255))
        .insert("gray97"@, RGBA(247, 247, 247, 255))
}

fn add_named_part_15(p: &mut Palette)
    requires
        old(p).wf(),
    ensures
        final(p).wf(),
        final(p).view() == named_part_15(old(p).view()),
{
    p.insert_str("grey72", RGBA(184, 184, 184, 255));
    p.insert_str("gray73", RGBA(186, 186, 186, 255));
    p.insert_str("grey73", RGBA(186, 186, 186, 255));
    p.insert_str("gray74", RGBA(189, 189, 189, 255));
    p.insert_str("grey74", RGBA(189, 189, 189, 255));
    p.insert_str("gray75", RGBA(191, 191, 191, 255));
    p.insert_str("grey75", RGBA(191, 191, 191, 255));
    p.insert_str("gray76", RGBA(194, 194, 194, 255));
    p.insert_str("grey76", RGBA(194, 194, 194, 255));
    p.insert_str("gray77", RGBA(196, 196, 196, 255));
    p.insert_str("grey77", RGBA(196, 196, 196, 255));
    p.insert_str("gray78", RGBA(199, 199, 199, 255));
    p.insert_str("grey78", RGBA(199, 199, 199, 255));
    p.insert_str("gray79", RGBA(201, 201, 201, 255));
    p.insert_str("grey79", RGBA(201, 201, 201, 255));
    p.insert_str("gray80", RGBA(204, 204, 204, 255));
    p.insert_str("grey80", RGBA(204, 204, 204, 255));
    p.insert_str("gray81", RGBA(207, 207, 207, 255));
    p.insert_str("grey81", RGBA(207, 207, 207, 255));
    p.insert_str("gray82", RGBA(209, 209, 209, 255));
    p.insert_str("grey82", RGBA(209, 209, 209, 255));
    p.insert_str("gray83", RGBA(212, 212, 212, 255));
    p.insert_str("grey83", RGBA(212, 212, 212, 255));
    p.insert_str("gray84", RGBA(214, 214, 214, 255));
    p.insert_str("grey84", RGBA(214, 214, 214, 255));
    p.insert_str("gray85", RGBA(217, 217, 217, 255));
    p.insert_str("grey85", RGBA(217, 217, 217, 255));
    p.insert_str("gray86", RGBA(219, 219, 219, 255));
    p.insert_str("grey86", RGBA(219, 219, 219, 255));
    p.insert_str("gray87", RGBA(222, 222, 222, 255));
    p.insert_str("grey87", RGBA(222, 222, 222, 255));
    p.insert_str("gray88", RGBA(224, 224, 224, 255));
    p.insert_str("grey88", RGBA(224, 224, 224, 255));
    p.insert_str("gray89", RGBA(227, 227, 227, 255));
    p.insert_str("grey89", RGBA(227, 227, 227, 255));
    p.insert_str("gray90", RGBA(229, 229, 229, 255));
    p.insert_str("grey90", RGBA(229, 229, 229, 255));
    p.insert_str("gray91", RGBA(232, 232, 232, 255));
    p.insert_str("grey91", RGBA(232, 232, 232, 255));
    p.insert_str("gray92", RGBA(235, 235, 235, 255));
    p.insert_str("grey92", RGBA(235, 235, 235, 255));
    p.insert_str("gray93", RGBA(237, 237, 237, 255));
    p.insert_str("grey93", RGBA(237, 237, 237, 255));
    p.insert_str("gray94", RGBA(240, 240, 240, 255));
    p.insert_str("grey94", RGBA(240, 240, 240, 255));
    p.insert_str("gray95", RGBA(242, 242, 242, 255));
    p.insert_str("grey95", RGBA(242, 242, 242, 255));
    p.insert_str("gray96", RGBA(245, 245, 245, 255));
    p.insert_str("grey96", RGBA(245, 245, 245, 255));
    p.insert_str("gray97", RGBA(247, 247, 247, 255));
}

/// Named colors, part 16, inserted into `m` in order.
pub open spec fn named_part_16(m: Map<Seq<char>, RGBA>) -> Map<Seq<char>, RGBA> {
    m
        .insert("grey97"@, RGBA(247, 247, 247, 255))
        .insert("gray98"@, RGBA(250, 250, 250, 255))
        .insert("grey98"@, RGBA(250, 250, 250, 255))
        .insert("gray99"@, RGBA(252, 252, 252, 255))
        .insert("grey99"@, RGBA(252, 252, 252, 255))
        .insert("gray100"@, RGBA(255, 255, 255, 255))
        .insert("grey100"@, RGBA(255, 255, 255, 255))
        .insert("dark_grey"@, RGBA(169, 169, 169, 255))
        .insert("darkgrey"@, RGBA(169, 169, 169, 255))
        .insert("dark_gray"@, RGBA(169, 169, 169, 255))
        .insert("darkgray"@, RGBA(169, 169, 169, 255))
        .insert("dark_blue"@, RGBA(0, 0, 139, 255))
        .insert("darkblue"@, RGBA(0, 0, 139, 255))
        .insert("dark_cyan"@, RGBA(0, 139, 139, 255))
        .insert("darkcyan"@, RGBA(0, 139, 139, 255))
        .insert("dark_magenta"@, RGBA(139, 0, 139, 255))
        .insert("darkmagenta"@, RGBA(139, 0, 139, 255))
        .insert("dark_red"@, RGBA(139, 0, 0, 255))
        .insert("darkred"@, RGBA(139, 0, 0, 255))
        .insert("light_green"@, RGBA(144, 238, 144, 255))
        .insert("lightgreen"@, RGBA(144, 238, 144, 255))
        .insert("crimson"@, RGBA(220, 20, 60, 255))
        .insert("indigo"@, RGBA(75, 0, 130, 255))
        .insert("olive"@, RGBA(128, 128, 0, 255))
        .insert("rebecca_purple"@, RGBA(102, 51, 153, 255))
        .insert("rebeccapurple"@, RGBA(102, 51, 153, 255))
        .insert("silver"@, RGBA(192, 192, 192, 255))
        .insert("teal"@, RGBA(0, 128, 128, 255))
}

fn add_named_part_16(p: &mut Palette)
    requires
        old(p).wf(),
    ensures
        final(p).wf(),
        final(p).view() == named_part_16(old(p).view()),
{
    p.insert_str("grey97", RGBA(247, 247, 247, 255));
    p.insert_str("gray98", RGBA(250, 250, 250, 255));
    p.insert_str("grey98", RGBA(250, 250, 250, 255));
    p.insert_str("gray99", RGBA(252, 252, 252, 255));
    p.insert_str("grey99", RGBA(252, 252, 252, 255));
    p.insert_str("gray100", RGBA(255, 255, 255, 255));
    p.insert_str("grey100", RGBA(255, 255, 255, 255));
    p.insert_str("dark_grey", RGBA(169, 169, 169, 255));
    p.insert_str("darkgrey", RGBA(169, 169, 169, 255));
    p.insert_str("dark_gray", RGBA(169, 169, 169, 255));
    p.insert_str("darkgray", RGBA(169, 169, 169, 255));
    p.insert_str("dark_blue", RGBA(0, 0, 139, 255));
    p.insert_str("darkblue", RGBA(0, 0, 139, 255));
    p.insert_str("dark_cyan", RGBA(0, 139, 139, 255));
    p.insert_str("darkcyan", RGBA(0, 139, 139, 255));
    p.insert_str("dark_magenta", RGBA(139, 0, 139, 255));
    p.insert_str("darkmagenta", RGBA(139, 0, 139, 255));
    p.insert_str("dark_red", RGBA(139, 0, 0, 255));
    p.insert_str("darkred", RGBA(139, 0, 0, 255));
    p.insert_str("light_green", RGBA(144, 238, 144, 255));
    p.insert_str("lightgreen", RGBA(144, 238, 144, 255));
    p.insert_str("crimson", RGBA(220, 20, 60, 255));
    p.insert_str("indigo", RGBA(75, 0, 130, 255));
    p.insert_str("olive", RGBA(128, 128, 0, 255));
    p.insert_str("rebecca_purple", RGBA(102, 51, 153, 255));
    p.insert_str("rebeccapurple", RGBA(102, 51, 153, 255));
    p.insert_str("silver", RGBA(192, 192, 192, 255));
    p.insert_str("teal", RGBA(0, 128, 128, 255));
}

/// All named colors inserted into `m`.
pub open spec fn with_named_colors(m: Map<Seq<char>, RGBA>) -> Map<Seq<char>, RGBA> {
    named_part_16(named_part_15(named_part_14(named_part_13(named_part_12(named_part_11(named_part_10(named_part_9(named_part_8(named_part_7(named_part_6(named_part_5(named_part_4(named_part_3(named_part_2(named_part_1(m))))))))))))))))
}

/// Insert all named W3C colors into the palette.
pub fn add_named_colors_to_palette(p: &mut Palette)
    requires
        old(p).wf(),
    ensures
        final(p).wf(),
        final(p).view() == with_named_colors(old(p).view()),
{
    add_named_part_1(p);
    add_named_part_2(p);
    add_named_part_3(p);
    add_named_part_4(p);
    add_named_part_5(p);
    add_named_part_6(p);
    add_named_part_7(p);
    add_named_part_8(p);
    add_named_part_9(p);
    add_named_part_10(p);
    add_named_part_11(p);
    add_named_part_12(p);
    add_named_part_13(p);
    add_named_part_14(p);
    add_named_part_15(p);
    add_named_part_16(p);
}


/// The named colors by themselves: the names and colors that
/// `add_named_colors_to_palette` adds.
pub open spec fn named_colors() -> Map<Seq<char>, RGBA> {
    with_named_colors(Map::empty())
}

/// Overriding with `y` and then with `z` is overriding with `y` overridden
/// by `z`.
proof fn lemma_union_assoc(x: Map<Seq<char>, RGBA>, y: Map<Seq<char>, RGBA>, z: Map<Seq<char>, RGBA>)
    ensures
        x.union_prefer_right(y).union_prefer_right(z) == x.union_prefer_right(y.union_prefer_right(z)),
{
    assert(x.union_prefer_right(y).union_prefer_right(z) =~= x.union_prefer_right(y.union_prefer_right(z)));
}

/// Part 1 of the named colors overrides the keys it names and keeps the rest.
#[verifier::rlimit(100)]
proof fn lemma_part_1(x: Map<Seq<char>, RGBA>)
    ensures
        named_part_1(x) == x.union_prefer_right(named_part_1(Map::empty())),
{
    assert(named_part_1(x) =~= x.union_prefer_right(named_part_1(Map::empty())));
}

/// Part 2 of the named colors overrides the keys it names and keeps the rest.
#[verifier::rlimit(100)]
proof fn lemma_part_2(x: Map<Seq<char>, RGBA>)
    ensures
        named_part_2(x) == x.union_prefer_right(named_part_2(Map::empty())),
{
    assert(named_part_2(x) =~= x.union_prefer_right(named_part_2(Map::empty())));
}

/// Part 3 of the named colors overrides the keys it names and keeps the rest.
#[verifier::rlimit(100)]
proof fn lemma_part_3(x: Map<Seq<char>, RGBA>)
    ensures
        named_part_3(x) == x.union_prefer_right(named_part_3(Map::empty())),
{
    assert(named_part_3(x) =~= x.union_prefer_right(named_part_3(Map::empty())));
}

/// Part 4 of the named colors overrides the keys it names and keeps the rest.
#[verifier::rlimit(100)]
proof fn lemma_part_4(x: Map<Seq<char>, RGBA>)
    ensures
        named_part_4(x) == x.union_prefer_right(named_part_4(Map::empty())),
{
    assert(named_part_4(x) =~= x.union_prefer_right(named_part_4(Map::empty())));
}

/// Part 5 of the named colors overrides the keys it names and keeps the rest.
#[verifier::rlimit(100)]
proof fn lemma_part_5(x: Map<Seq<char>, RGBA>)
    ensures
        named_part_5(x) == x.union_prefer_right(named_part_5(Map::empty())),
{
    assert(named_part_5(x) =~= x.union_prefer_right(named_part_5(Map::empty())));
}

/// Part 6 of the named colors overrides the keys it names and keeps the rest.
#[verifier::rlimit(100)]
proof fn lemma_part_6(x: Map<Seq<char>, RGBA>)
    ensures
        named_part_6(x) == x.union_prefer_right(named_part_6(Map::empty())),
{
    assert(named_part_6(x) =~= x.union_prefer_right(named_part_6(Map::empty())));
}

/// Part 7 of the named colors overrides the keys it names and keeps the rest.
#[verifier::rlimit(100)]
proof fn lemma_part_7(x: Map<Seq<char>, RGBA>)
    ensures
        named_part_7(x) == x.union_prefer_right(named_part_7(Map::empty())),
{
    assert(named_part_7(x) =~= x.union_prefer_right(named_part_7(Map::empty())));
}

/// Part 8 of the named colors overrides the keys it names and keeps the rest.
#[verifier::rlimit(100)]
proof fn lemma_part_8(x: Map<Seq<char>, RGBA>)
    ensures
        named_part_8(x) == x.union_prefer_right(named_part_8(Map::empty())),
{
    assert(named_part_8(x) =~= x.union_prefer_right(named_part_8(Map::empty())));
}

/// Part 9 of the named colors overrides the keys it names and keeps the rest.
#[verifier::rlimit(100)]
proof fn lemma_part_9(x: Map<Seq<char>, RGBA>)
    ensures
        named_part_9(x) == x.union_prefer_right(named_part_9(Map::empty())),
{
    assert(named_part_9(x) =~= x.union_prefer_right(named_part_9(Map::empty())));
}

/// Part 10 of the named colors overrides the keys it names and keeps the rest.
#[verifier::rlimit(100)]
proof fn lemma_part_10(x: Map<Seq<char>, RGBA>)
    ensures
        named_part_10(x) == x.union_prefer_right(named_part_10(Map::empty())),
{
    assert(named_part_10(x) =~= x.union_prefer_right(named_part_10(Map::empty())));
}

/// Part 11 of the named colors overrides the keys it names and keeps the rest.
#[verifier::rlimit(100)]
proof fn lemma_part_11(x: Map<Seq<char>, RGBA>)
    ensures
        named_part_11(x) == x.union_prefer_right(named_part_11(Map::empty())),
{
    assert(named_part_11(x) =~= x.union_prefer_right(named_part_11(Map::empty())));
}

/// Part 12 of the named colors overrides the keys it names and keeps the rest.
#[verifier::rlimit(100)]
proof fn lemma_part_12(x: Map<Seq<char>, RGBA>)
    ensures
        named_part_12(x) == x.union_prefer_right(named_part_12(Map::empty())),
{
    assert(named_part_12(x) =~= x.union_prefer_right(named_part_12(Map::empty())));
}

/// Part 13 of the named colors overrides the keys it names and keeps the rest.
#[verifier::rlimit(100)]
proof fn lemma_part_13(x: Map<Seq<char>, RGBA>)
    ensures
        named_part_13(x) == x.union_prefer_right(named_part_13(Map::empty())),
{
    assert(named_part_13(x) =~= x.union_prefer_right(named_part_13(Map::empty())));
}

/// Part 14 of the named colors overrides the keys it names and keeps the rest.
#[verifier::rlimit(100)]
proof fn lemma_part_14(x: Map<Seq<char>, RGBA>)
    ensures
        named_part_14(x) == x.union_prefer_right(named_part_14(Map::empty())),
{
    assert(named_part_14(x) =~= x.union_prefer_right(named_part_14(Map::empty())));
}

/// Part 15 of the named colors overrides the keys it names and keeps the rest.
#[verifier::rlimit(100)]
proof fn lemma_part_15(x: Map<Seq<char>, RGBA>)
    ensures
        named_part_15(x) == x.union_prefer_right(named_part_15(Map::empty())),
{
    assert(named_part_15(x) =~= x.union_prefer_right(named_part_15(Map::empty())));
}

/// Part 16 of the named colors overrides the keys it names and keeps the rest.
#[verifier::rlimit(100)]
proof fn lemma_part_16(x: Map<Seq<char>, RGBA>)
    ensures
        named_part_16(x) == x.union_prefer_right(named_part_16(Map::empty())),
{
    assert(named_part_16(x) =~= x.union_prefer_right(named_part_16(Map::empty())));
}

/// Adding the named colors gives the palette overridden by them: every named
/// key gets its named color and every other key keeps what it had.
pub proof fn lemma_with_named_colors(m: Map<Seq<char>, RGBA>)
    ensures
        with_named_colors(m) == m.union_prefer_right(named_colors()),
{
    let e = Map::<Seq<char>, RGBA>::empty();
    lemma_part_1(m);
    lemma_part_1(e);
    assert(e.union_prefer_right(named_part_1(e)) =~= named_part_1(e));
    lemma_part_2(named_part_1(m));
    lemma_part_2(named_part_1(e));
    lemma_part_2(e);
    lemma_union_assoc(m, named_part_1(e), named_part_2(e));
    assert(named_part_2(named_part_1(m)) == m.union_prefer_right(named_part_2(named_part_1(e))));
    lemma_part_3(named_part_2(named_part_1(m)));
    lemma_part_3(named_part_2(named_part_1(e)));
    lemma_part_3(e);
    lemma_union_assoc(m, named_part_2(named_part_1(e)), named_part_3(e));
    assert(named_part_3(named_part_2(named_part_1(m))) == m.union_prefer_right(named_part_3(named_part_2(named_part_1(e)))));
    lemma_part_4(named_part_3(named_part_2(named_part_1(m))));
    lemma_part_4(named_part_3(named_part_2(named_part_1(e))));
    lemma_part_4(e);
    lemma_union_assoc(m, named_part_3(named_part_2(named_part_1(e))), named_part_4(e));
    assert(named_part_4(named_part_3(named_part_2(named_part_1(m)))) == m.union_prefer_right(named_part_4(named_part_3(named_part_2(named_part_1(e))))));
    lemma_part_5(named_part_4(named_part_3(named_part_2(named_part_1(m)))));
    lemma_part_5(named_part_4(named_part_3(named_part_2(named_part_1(e)))));
    lemma_part_5(e);
    lemma_union_assoc(m, named_part_4(named_part_3(named_part_2(named_part_1(e)))), named_part_5(e));
    assert(named_part_5(named_part_4(named_part_3(named_part_2(named_part_1(m))))) == m.union_prefer_right(named_part_5(named_part_4(named_part_3(named_part_2(named_part_1(e)))))));
    lemma_part_6(named_part_5(named_part_4(named_part_3(named_part_2(named_part_1(m))))));
    lemma_part_6(named_part_5(named_part_4(named_part_3(named_part_2(named_part_1(e))))));
    lemma_part_6(e);
    lemma_union_assoc(m, named_part_5(named_part_4(named_part_3(named_part_2(named_part_1(e))))), named_part_6(e));
    assert(named_part_6(named_part_5(named_part_4(named_part_3(named_part_2(named_part_1(m)))))) == m.union_prefer_right(named_part_6(named_part_5(named_part_4(named_part_3(named_part_2(named_part_1(e))))))));
    lemma_part_7(named_part_6(named_part_5(named_part_4(named_part_3(named_part_2(named_part_1(m)))))));
    lemma_part_7(named_part_6(named_part_5(named_part_4(named_part_3(named_part_2(named_part_1(e)))))));
    lemma_part_7(e);
    lemma_union_assoc(m, named_part_6(named_part_5(named_part_4(named_part_3(named_part_2(named_part_1(e)))))), named_part_7(e));
    assert(named_part_7(named_part_6(named_part_5(named_part_4(named_part_3(named_part_2(named_part_1(m))))))) == m.union_prefer_right(named_part_7(named_part_6(named_part_5(named_part_4(named_part_3(named_part_2(named_part_1(e)))))))));
    lemma_part_8(named_part_7(named_part_6(named_part_5(named_part_4(named_part_3(named_part_2(named_part_1(m))))))));
    lemma_part_8(named_part_7(named_part_6(named_part_5(named_part_4(named_part_3(named_part_2(named_part_1(e))))))));
    lemma_part_8(e);
    lemma_union_assoc(m, named_part_7(named_part_6(named_part_5(named_part_4(named_part_3(named_part_2(named_part_1(e))))))), named_part_8(e));
    assert(named_part_8(named_part_7(named_part_6(named_part_5(named_part_4(named_part_3(named_part_2(named_part_1(m)))))))) == m.union_prefer_right(named_part_8(named_part_7(named_part_6(named_part_5(named_part_4(named_part_3(named_part_2(named_part_1(e))))))))));
    lemma_part_9(named_part_8(named_part_7(named_part_6(named_part_5(named_part_4(named_part_3(named_part_2(named_part_1(m)))))))));
    lemma_part_9(named_part_8(named_part_7(named_part_6(named_part_5(named_part_4(named_part_3(named_part_2(named_part_1(e)))))))));
    lemma_part_9(e);
    lemma_union_assoc(m, named_part_8(named_part_7(named_part_6(named_part_5(named_part_4(named_part_3(named_part_2(named_part_1(e)))))))), named_part_9(e));
    assert(named_part_9(named_part_8(named_part_7(named_part_6(named_part_5(named_part_4(named_part_3(named_part_2(named_part_1(m))))))))) == m.union_prefer_right(named_part_9(named_part_8(named_part_7(named_part_6(named_part_5(named_part_4(named_part_3(named_part_2(named_part_1(e)))))))))));
    lemma_part_10(named_part_9(named_part_8(named_part_7(named_part_6(named_part_5(named_part_4(named_part_3(named_part_2(named_part_1(m))))))))));
    lemma_part_10(named_part_9(named_part_8(named_part_7(named_part_6(named_part_5(named_part_4(named_part_3(named_part_2(named_part_1(e))))))))));
    lemma_part_10(e);
    lemma_union_assoc(m, named_part_9(named_part_8(named_part_7(named_part_6(named_part_5(named_part_4(named_part_3(named_part_2(named_part_1(e))))))))), named_part_10(e));
    assert(named_part_10(named_part_9(named_part_8(named_part_7(named_part_6(named_part_5(named_part_4(named_part_3(named_part_2(named_part_1(m)))))))))) == m.union_prefer_right(named_part_10(named_part_9(named_part_8(named_part_7(named_part_6(named_part_5(named_part_4(named_part_3(named_part_2(named_part_1(e))))))))))));
    lemma_part_11(named_part_10(named_part_9(named_part_8(named_part_7(named_part_6(named_part_5(named_part_4(named_part_3(named_part_2(named_part_1(m)))))))))));
    lemma_part_11(named_part_10(named_part_9(named_part_8(named_part_7(named_part_6(named_part_5(named_part_4(named_part_3(named_part_2(named_part_1(e)))))))))));
    lemma_part_11(e);
    lemma_union_assoc(m, named_part_10(named_part_9(named_part_8(named_part_7(named_part_6(named_part_5(named_part_4(named_part_3(named_part_2(named_part_1(e)))))))))), named_part_11(e));
    assert(named_part_11(named_part_10(named_part_9(named_part_8(named_part_7(named_part_6(named_part_5(named_part_4(named_part_3(named_part_2(named_part_1(m))))))))))) == m.union_prefer_right(named_part_11(named_part_10(named_part_9(named_part_8(named_part_7(named_part_6(named_part_5(named_part_4(named_part_3(named_part_2(named_part_1(e)))))))))))));
    lemma_part_12(named_part_11(named_part_10(named_part_9(named_part_8(named_part_7(named_part_6(named_part_5(named_part_4(named_part_3(named_part_2(named_part_1(m))))))))))));
    lemma_part_12(named_part_11(named_part_10(named_part_9(named_part_8(named_part_7(named_part_6(named_part_5(named_part_4(named_part_3(named_part_2(named_part_1(e))))))))))));
    lemma_part_12(e);
    lemma_union_assoc(m, named_part_11(named_part_10(named_part_9(named_part_8(named_part_7(named_part_6(named_part_5(named_part_4(named_part_3(named_part_2(named_part_1(e))))))))))), named_part_12(e));
    assert(named_part_12(named_part_11(named_part_10(named_part_9(named_part_8(named_part_7(named_part_6(named_part_5(named_part_4(named_part_3(named_part_2(named_part_1(m)))))))))))) == m.union_prefer_right(named_part_12(named_part_11(named_part_10(named_part_9(named_part_8(named_part_7(named_part_6(named_part_5(named_part_4(named_part_3(named_part_2(named_part_1(e))))))))))))));
    lemma_part_13(named_part_12(named_part_11(named_part_10(named_part_9(named_part_8(named_part_7(named_part_6(named_part_5(named_part_4(named_part_3(named_part_2(named_part_1(m)))))))))))));
    lemma_part_13(named_part_12(named_part_11(named_part_10(named_part_9(named_part_8(named_part_7(named_part_6(named_part_5(named_part_4(named_part_3(named_part_2(named_part_1(e)))))))))))));
    lemma_part_13(e);
    lemma_union_assoc(m, named_part_12(named_part_11(named_part_10(named_part_9(named_part_8(named_part_7(named_part_6(named_part_5(named_part_4(named_part_3(named_part_2(named_part_1(e)))))))))))), named_part_13(e));
    assert(named_part_13(named_part_12(named_part_11(named_part_10(named_part_9(named_part_8(named_part_7(named_part_6(named_part_5(named_part_4(named_part_3(named_part_2(named_part_1(m))))))))))))) == m.union_prefer_right(named_part_13(named_part_12(named_part_11(named_part_10(named_part_9(named_part_8(named_part_7(named_part_6(named_part_5(named_part_4(named_part_3(named_part_2(named_part_1(e)))))))))))))));
    lemma_part_14(named_part_13(named_part_12(named_part_11(named_part_10(named_part_9(named_part_8(named_part_7(named_part_6(named_part_5(named_part_4(named_part_3(named_part_2(named_part_1(m))))))))))))));
    lemma_part_14(named_part_13(named_part_12(named_part_11(named_part_10(named_part_9(named_part_8(named_part_7(named_part_6(named_part_5(named_part_4(named_part_3(named_part_2(named_part_1(e))))))))))))));
    lemma_part_14(e);
    lemma_union_assoc(m, named_part_13(named_part_12(named_part_11(named_part_10(named_part_9(named_part_8(named_part_7(named_part_6(named_part_5(named_part_4(named_part_3(named_part_2(named_part_1(e))))))))))))), named_part_14(e));
    assert(named_part_14(named_part_13(named_part_12(named_part_11(named_part_10(named_part_9(named_part_8(named_part_7(named_part_6(named_part_5(named_part_4(named_part_3(named_part_2(named_part_1(m)))))))))))))) == m.union_prefer_right(named_part_14(named_part_13(named_part_12(named_part_11(named_part_10(named_part_9(named_part_8(named_part_7(named_part_6(named_part_5(named_part_4(named_part_3(named_part_2(named_part_1(e))))))))))))))));
    lemma_part_15(named_part_14(named_part_13(named_part_12(named_part_11(named_part_10(named_part_9(named_part_8(named_part_7(named_part_6(named_part_5(named_part_4(named_part_3(named_part_2(named_part_1(m)))))))))))))));
    lemma_part_15(named_part_14(named_part_13(named_part_12(named_part_11(named_part_10(named_part_9(named_part_8(named_part_7(named_part_6(named_part_5(named_part_4(named_part_3(named_part_2(named_part_1(e)))))))))))))));
    lemma_part_15(e);
    lemma_union_assoc(m, named_part_14(named_part_13(named_part_12(named_part_11(named_part_10(named_part_9(named_part_8(named_part_7(named_part_6(named_part_5(named_part_4(named_part_3(named_part_2(named_part_1(e)))))))))))))), named_part_15(e));
    assert(named_part_15(named_part_14(named_part_13(named_part_12(named_part_11(named_part_10(named_part_9(named_part_8(named_part_7(named_part_6(named_part_5(named_part_4(named_part_3(named_part_2(named_part_1(m))))))))))))))) == m.union_prefer_right(named_part_15(named_part_14(named_part_13(named_part_12(named_part_11(named_part_10(named_part_9(named_part_8(named_part_7(named_part_6(named_part_5(named_part_4(named_part_3(named_part_2(named_part_1(e)))))))))))))))));
    lemma_part_16(named_part_15(named_part_14(named_part_13(named_part_12(named_part_11(named_part_10(named_part_9(named_part_8(named_part_7(named_part_6(named_part_5(named_part_4(named_part_3(named_part_2(named_part_1(m))))))))))))))));
    lemma_part_16(named_part_15(named_part_14(named_part_13(named_part_12(named_part_11(named_part_10(named_part_9(named_part_8(named_part_7(named_part_6(named_part_5(named_part_4(named_part_3(named_part_2(named_part_1(e))))))))))))))));
    lemma_part_16(e);
    lemma_union_assoc(m, named_part_15(named_part_14(named_part_13(named_part_12(named_part_11(named_part_10(named_part_9(named_part_8(named_part_7(named_part_6(named_part_5(named_part_4(named_part_3(named_part_2(named_part_1(e))))))))))))))), named_part_16(e));
    assert(named_part_16(named_part_15(named_part_14(named_part_13(named_part_12(named_part_11(named_part_10(named_part_9(named_part_8(named_part_7(named_part_6(named_part_5(named_part_4(named_part_3(named_part_2(named_part_1(m)))))))))))))))) == m.union_prefer_right(named_part_16(named_part_15(named_part_14(named_part_13(named_part_12(named_part_11(named_part_10(named_part_9(named_part_8(named_part_7(named_part_6(named_part_5(named_part_4(named_part_3(named_part_2(named_part_1(e))))))))))))))))));
}

/// Adding the named colors leaves every key they do not name as it was, sets
/// every key they name to its named color, and adding them a second time
/// changes nothing.
pub proof fn lemma_named_colors_frame(m: Map<Seq<char>, RGBA>)
    ensures
        forall|k: Seq<char>|
            !named_colors().contains_key(k) ==> (#[trigger] with_named_colors(m).contains_key(k)
                == m.contains_key(k) && (m.contains_key(k) ==> with_named_colors(m)[k] == m[k])),
        forall|k: Seq<char>|
            named_colors().contains_key(k) ==> #[trigger] with_named_colors(m).contains_key(k)
                && with_named_colors(m)[k] == named_colors()[k],
        with_named_colors(with_named_colors(m)) == with_named_colors(m),
{
    lemma_with_named_colors(m);
    lemma_with_named_colors(with_named_colors(m));
    lemma_union_assoc(m, named_colors(), named_colors());
    assert(named_colors().union_prefer_right(named_colors()) =~= named_colors());
}

} // verus!
